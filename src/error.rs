use vstd::prelude::*;

verus! {

/// The kinds of failure that end a session or a coordinator step.
#[derive(Debug, Clone, Copy, PartialEq, Eq, Structural)]
pub enum AppError {
    /// Reading from or writing to the connection failed.
    Io,
    /// A request could not be handed to the coordinator: it is gone.
    MpscReqSend,
    /// A notification could not be handed to a session: it is gone.
    MpscNtfSend,
    /// A mailbox was closed while waiting on it.
    MpscRecv,
    /// Every name drawn for a joining session was in use.
    NoFreeName,
}

pub type AppResult<T> = Result<T, AppError>;

impl AppError {
    /// The heading under which this kind of failure is reported.
    pub fn heading(&self) -> (r: &'static str)
        ensures
            r@ == heading_of(*self),
    {
        proof {
            reveal_strlit("IO error");
            reveal_strlit("MPSC Send error");
            reveal_strlit("MPSC Recv error");
            reveal_strlit("No free name");
        }
        match self {
            AppError::Io => "IO error",
            AppError::MpscReqSend => "MPSC Send error",
            AppError::MpscNtfSend => "MPSC Send error",
            AppError::MpscRecv => "MPSC Recv error",
            AppError::NoFreeName => "No free name",
        }
    }
}

pub open spec fn heading_of(e: AppError) -> Seq<char> {
    match e {
        AppError::Io => "IO error"@,
        AppError::MpscReqSend => "MPSC Send error"@,
        AppError::MpscNtfSend => "MPSC Send error"@,
        AppError::MpscRecv => "MPSC Recv error"@,
        AppError::NoFreeName => "No free name"@,
    }
}

} // verus!
