use vstd::prelude::*;

verus! {

/// The ICMP message type.
#[derive(Clone, Copy, Debug, Eq)]
pub enum Type {
    EchoReply,
    DestinationUnreachable,
    SourceQuench,
    RedirectMessage,
    EchoRequest,
    RouterAdvertisement,
    RouterSolicitation,
    TimeExceeded,
    ParameterProblem,
    Timestamp,
    TimestampReply,
    InformationRequest,
    InformationReply,
    AddressMaskRequest,
    AddressMaskReply,
    Traceroute,
    ExtendedEchoRequest,
    ExtendedEchoReply,
    /// Any other code, as it stands on the wire.
    Other(u8),
}

/// The message type with wire code `c`.
pub open spec fn icmp_type_of(c: u8) -> Type {
    if c == 0 {
        Type::EchoReply
    } else if c == 3 {
        Type::DestinationUnreachable
    } else if c == 4 {
        Type::SourceQuench
    } else if c == 5 {
        Type::RedirectMessage
    } else if c == 8 {
        Type::EchoRequest
    } else if c == 9 {
        Type::RouterAdvertisement
    } else if c == 10 {
        Type::RouterSolicitation
    } else if c == 11 {
        Type::TimeExceeded
    } else if c == 12 {
        Type::ParameterProblem
    } else if c == 13 {
        Type::Timestamp
    } else if c == 14 {
        Type::TimestampReply
    } else if c == 15 {
        Type::InformationRequest
    } else if c == 16 {
        Type::InformationReply
    } else if c == 17 {
        Type::AddressMaskRequest
    } else if c == 18 {
        Type::AddressMaskReply
    } else if c == 30 {
        Type::Traceroute
    } else if c == 42 {
        Type::ExtendedEchoRequest
    } else if c == 43 {
        Type::ExtendedEchoReply
    } else {
        Type::Other(c)
    }
}

impl Type {
    pub open spec fn spec_code(self) -> u8 {
        match self {
            Type::EchoReply => 0,
            Type::DestinationUnreachable => 3,
            Type::SourceQuench => 4,
            Type::RedirectMessage => 5,
            Type::EchoRequest => 8,
            Type::RouterAdvertisement => 9,
            Type::RouterSolicitation => 10,
            Type::TimeExceeded => 11,
            Type::ParameterProblem => 12,
            Type::Timestamp => 13,
            Type::TimestampReply => 14,
            Type::InformationRequest => 15,
            Type::InformationReply => 16,
            Type::AddressMaskRequest => 17,
            Type::AddressMaskReply => 18,
            Type::Traceroute => 30,
            Type::ExtendedEchoRequest => 42,
            Type::ExtendedEchoReply => 43,
            Type::Other(c) => c,
        }
    }

    pub fn code(&self) -> (r: u8)
        ensures
            r == self.spec_code(),
    {
        match self {
            Type::EchoReply => 0,
            Type::DestinationUnreachable => 3,
            Type::SourceQuench => 4,
            Type::RedirectMessage => 5,
            Type::EchoRequest => 8,
            Type::RouterAdvertisement => 9,
            Type::RouterSolicitation => 10,
            Type::TimeExceeded => 11,
            Type::ParameterProblem => 12,
            Type::Timestamp => 13,
            Type::TimestampReply => 14,
            Type::InformationRequest => 15,
            Type::InformationReply => 16,
            Type::AddressMaskRequest => 17,
            Type::AddressMaskReply => 18,
            Type::Traceroute => 30,
            Type::ExtendedEchoRequest => 42,
            Type::ExtendedEchoReply => 43,
            Type::Other(c) => *c,
        }
    }

    pub fn from_code(c: u8) -> (r: Type)
        ensures
            r == icmp_type_of(c),
    {
        if c == 0 {
            Type::EchoReply
        } else if c == 3 {
            Type::DestinationUnreachable
        } else if c == 4 {
            Type::SourceQuench
        } else if c == 5 {
            Type::RedirectMessage
        } else if c == 8 {
            Type::EchoRequest
        } else if c == 9 {
            Type::RouterAdvertisement
        } else if c == 10 {
            Type::RouterSolicitation
        } else if c == 11 {
            Type::TimeExceeded
        } else if c == 12 {
            Type::ParameterProblem
        } else if c == 13 {
            Type::Timestamp
        } else if c == 14 {
            Type::TimestampReply
        } else if c == 15 {
            Type::InformationRequest
        } else if c == 16 {
            Type::InformationReply
        } else if c == 17 {
            Type::AddressMaskRequest
        } else if c == 18 {
            Type::AddressMaskReply
        } else if c == 30 {
            Type::Traceroute
        } else if c == 42 {
            Type::ExtendedEchoRequest
        } else if c == 43 {
            Type::ExtendedEchoReply
        } else {
            Type::Other(c)
        }
    }
}

/// Two values are equal when their wire codes are: `Other` with a named code
/// equals the named variant.
impl PartialEq for Type {
    fn eq(&self, o: &Type) -> (r: bool)
        ensures
            r == (self.spec_code() == o.spec_code()),
    {
        self.code() == o.code()
    }
}

impl vstd::std_specs::cmp::PartialEqSpecImpl for Type {
    open spec fn obeys_eq_spec() -> bool {
        true
    }

    open spec fn eq_spec(&self, o: &Type) -> bool {
        self.spec_code() == o.spec_code()
    }
}

/// The length of the header of an echo message.
pub const ECHO_HEADER_LEN: usize = 8;

} // verus!
