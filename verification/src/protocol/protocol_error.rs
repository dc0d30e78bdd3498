use vstd::prelude::*;

verus! {

#[derive(Clone, Copy, Debug, PartialEq, Eq, Structural)]
pub enum Code {
    Unspecified,
    Unauthorized,
    BadVersion,
    BadMessage,
    FlowControl,
    SessionNotFound,
    LeaseDenied,
    Internal,
}

impl Code {
    pub open spec fn spec_code(self) -> i32 {
        match self {
            Code::Unspecified => 0i32,
            Code::Unauthorized => 1i32,
            Code::BadVersion => 2i32,
            Code::BadMessage => 3i32,
            Code::FlowControl => 4i32,
            Code::SessionNotFound => 5i32,
            Code::LeaseDenied => 6i32,
            Code::Internal => 7i32,
        }
    }

    pub fn code(self) -> (r: i32)
        ensures
            r == self.spec_code(),
    {
        match self {
            Code::Unspecified => 0,
            Code::Unauthorized => 1,
            Code::BadVersion => 2,
            Code::BadMessage => 3,
            Code::FlowControl => 4,
            Code::SessionNotFound => 5,
            Code::LeaseDenied => 6,
            Code::Internal => 7,
        }
    }
}

} // verus!
