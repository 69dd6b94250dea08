use vstd::prelude::*;

verus! {

/// The archive's answer on how many captures the user has left.
#[derive(Clone, Copy, Debug, PartialEq, Eq, Structural)]
pub struct UserStatusResp {
    pub available: usize,
    pub daily_captures: usize,
    pub daily_captures_limit: usize,
    pub processing: usize,
}

/// A request to archive a page.
#[derive(Clone, Debug, PartialEq)]
pub struct SaveReq {
    pub url: String,
    pub capture_all: bool,
    pub capture_outlinks: bool,
    pub force_get: bool,
    pub skip_first_archive: bool,
}

} // verus!
