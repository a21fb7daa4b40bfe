//! The quality of service of a message.

use vstd::prelude::*;

verus! {

/// How hard sender and receiver work to deliver a message.
#[derive(Debug, Clone, Copy, PartialEq, Eq, Hash, Structural)]
pub enum QualityOfService {
    /// Quality of service 0: sent once, never acknowledged.
    AtMostOnce,
    /// Quality of service 1: sent until acknowledged.
    AtLeastOnce,
    /// Quality of service 2: delivered once, by a handshake in two steps.
    ExactlyOnce,
}

impl QualityOfService {
    /// The number 0, 1 or 2 of the quality of service.
    pub open spec fn spec_level(self) -> u8 {
        match self {
            QualityOfService::AtMostOnce => 0,
            QualityOfService::AtLeastOnce => 1,
            QualityOfService::ExactlyOnce => 2,
        }
    }

    /// The quality of service with the number `level`, if there is one.
    pub open spec fn spec_from_level(level: u8) -> Option<QualityOfService> {
        if level == 0 {
            Some(QualityOfService::AtMostOnce)
        } else if level == 1 {
            Some(QualityOfService::AtLeastOnce)
        } else if level == 2 {
            Some(QualityOfService::ExactlyOnce)
        } else {
            None
        }
    }

    /// The number 0, 1 or 2 of the quality of service.
    pub fn level(&self) -> (r: u8)
        ensures
            r == self.spec_level(),
            r <= 2,
            QualityOfService::spec_from_level(r) == Some(*self),
    {
        match self {
            QualityOfService::AtMostOnce => 0,
            QualityOfService::AtLeastOnce => 1,
            QualityOfService::ExactlyOnce => 2,
        }
    }

    /// The quality of service with the number `level`; nothing where the
    /// number is above 2.
    pub fn from_level(level: u8) -> (r: Option<QualityOfService>)
        ensures
            r == QualityOfService::spec_from_level(level),
            r matches Some(q) ==> q.spec_level() == level,
    {
        match level {
            0 => Some(QualityOfService::AtMostOnce),
            1 => Some(QualityOfService::AtLeastOnce),
            2 => Some(QualityOfService::ExactlyOnce),
            _ => None,
        }
    }
}

/// The highest quality of service that a server may announce. It announces
/// none where it supports 2.
#[derive(Debug, Clone, Copy, PartialEq, Eq, Hash, Structural)]
pub enum MaximumQualityOfService {
    /// The server takes messages of quality of service 0 only.
    AtMostOnce,
    /// The server takes messages of quality of service 0 and 1.
    AtLeastOnce,
}

impl MaximumQualityOfService {
    /// The number 0 or 1 of the limit.
    pub open spec fn spec_level(self) -> u8 {
        match self {
            MaximumQualityOfService::AtMostOnce => 0,
            MaximumQualityOfService::AtLeastOnce => 1,
        }
    }

    /// Tells whether a message of quality of service `qos` is within the limit.
    pub fn permits(&self, qos: QualityOfService) -> (r: bool)
        ensures
            r == (qos.spec_level() <= self.spec_level()),
    {
        match (self, qos) {
            (_, QualityOfService::AtMostOnce) => true,
            (MaximumQualityOfService::AtLeastOnce, QualityOfService::AtLeastOnce) => true,
            _ => false,
        }
    }
}

} // verus!
