//! Decoded server responses.
use vstd::prelude::*;

verus! {

/// A response envelope: its `Results` member.
#[derive(Debug)]
pub struct Result {
    pub results: ResultData,
}

/// What a response carries: a list of strings or a run of bytes.
#[derive(Debug)]
pub enum ResultData {
    Text(Vec<String>),
    Binary(Vec<u8>),
}

/// The contents of a response.
pub ghost enum ResultModel {
    Text(Seq<String>),
    Binary(Seq<u8>),
}

impl View for ResultData {
    type V = ResultModel;

    open spec fn view(&self) -> ResultModel {
        match self {
            ResultData::Text(v) => ResultModel::Text(v@),
            ResultData::Binary(b) => ResultModel::Binary(b@),
        }
    }
}

} // verus!
