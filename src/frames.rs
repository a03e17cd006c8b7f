//! Reassembling one response from the frames that carry it.
use vstd::prelude::*;
use crate::results::{ResultData, ResultModel};
use crate::Qusb2snesError;

verus! {

/// One frame received from the transport. The payload of a text frame comes
/// already run through the codec, which either decoded a response envelope
/// or failed.
#[derive(Debug)]
pub enum Frame {
    Text { decoded: Result<ResultData, serde_json::Error>, fin: bool },
    Binary { payload: Vec<u8>, fin: bool },
    Close,
    Other,
}

/// What has been gathered of a response so far.
#[derive(Debug)]
pub enum Accumulator {
    Empty,
    Text(Vec<String>),
    Binary(Vec<u8>),
}

/// Where reassembly stands after a frame.
#[derive(Debug)]
pub enum Progress {
    /// The response is not complete yet: wait for another frame.
    Pending(Accumulator),
    /// The response is complete.
    Complete(ResultData),
    /// The frames do not form a response.
    Failed(Qusb2snesError),
}

/// The contents of a frame.
pub ghost enum FrameModel {
    /// A text frame: `None` where the codec could not decode its payload.
    Text { decoded: Option<ResultModel>, fin: bool },
    Binary { payload: Seq<u8>, fin: bool },
    Close,
    Other,
}

/// What has been gathered, as values.
pub ghost enum Gathered {
    Empty,
    Text(Seq<String>),
    Binary(Seq<u8>),
}

/// Where reassembly stands, as values.
pub ghost enum Outcome {
    Pending(Gathered),
    DoneText(Seq<String>),
    DoneBinary(Seq<u8>),
    /// A text payload that the codec could not decode.
    MessageFault,
    /// A frame that the response in progress cannot take.
    FrameFault,
    /// A failure of the transport.
    TransportFault,
}

impl View for Frame {
    type V = FrameModel;

    open spec fn view(&self) -> FrameModel {
        match self {
            Frame::Text { decoded, fin } => FrameModel::Text {
                decoded: match decoded {
                    Ok(d) => Some(d@),
                    Err(_) => None,
                },
                fin: *fin,
            },
            Frame::Binary { payload, fin } => FrameModel::Binary { payload: payload@, fin: *fin },
            Frame::Close => FrameModel::Close,
            Frame::Other => FrameModel::Other,
        }
    }
}

impl View for Accumulator {
    type V = Gathered;

    open spec fn view(&self) -> Gathered {
        match self {
            Accumulator::Empty => Gathered::Empty,
            Accumulator::Text(v) => Gathered::Text(v@),
            Accumulator::Binary(b) => Gathered::Binary(b@),
        }
    }
}

impl View for Progress {
    type V = Outcome;

    open spec fn view(&self) -> Outcome {
        match self {
            Progress::Pending(a) => Outcome::Pending(a@),
            Progress::Complete(ResultData::Text(v)) => Outcome::DoneText(v@),
            Progress::Complete(ResultData::Binary(b)) => Outcome::DoneBinary(b@),
            Progress::Failed(Qusb2snesError::MessageError { .. }) => Outcome::MessageFault,
            Progress::Failed(Qusb2snesError::FrameError { .. }) => Outcome::FrameFault,
            Progress::Failed(Qusb2snesError::SocketError { .. }) => Outcome::TransportFault,
        }
    }
}

/// The strings gathered so far (none unless text is being gathered).
pub open spec fn gathered_text(g: Gathered) -> Seq<String> {
    match g {
        Gathered::Text(v) => v,
        _ => Seq::empty(),
    }
}

/// The bytes gathered so far (none unless bytes are being gathered).
pub open spec fn gathered_bytes(g: Gathered) -> Seq<u8> {
    match g {
        Gathered::Binary(b) => b,
        _ => Seq::empty(),
    }
}

/// One step of reassembly: text frames gather strings and binary frames
/// gather bytes, until a frame with the completion flag; mixing the two,
/// a text payload that holds bytes, or a close is a fault; any other frame
/// changes nothing.
pub open spec fn step_model(g: Gathered, f: FrameModel) -> Outcome {
    match f {
        FrameModel::Text { decoded, fin } => {
            if g is Binary {
                Outcome::FrameFault
            } else {
                match decoded {
                    None => Outcome::MessageFault,
                    Some(ResultModel::Binary(_)) => Outcome::FrameFault,
                    Some(ResultModel::Text(res)) => {
                        let all = gathered_text(g) + res;
                        if fin {
                            Outcome::DoneText(all)
                        } else {
                            Outcome::Pending(Gathered::Text(all))
                        }
                    },
                }
            }
        },
        FrameModel::Binary { payload, fin } => {
            if g is Text {
                Outcome::FrameFault
            } else {
                let all = gathered_bytes(g) + payload;
                if fin {
                    Outcome::DoneBinary(all)
                } else {
                    Outcome::Pending(Gathered::Binary(all))
                }
            }
        },
        FrameModel::Close => Outcome::FrameFault,
        FrameModel::Other => Outcome::Pending(g),
    }
}

/// Reassembly over a run of frames, from `g`, stopping at the first frame
/// that completes the response or fails it.
pub open spec fn run_model(g: Gathered, frames: Seq<FrameModel>) -> Outcome
    decreases frames.len(),
{
    if frames.len() == 0 {
        Outcome::Pending(g)
    } else {
        match step_model(g, frames[0]) {
            Outcome::Pending(next) => run_model(next, frames.drop_first()),
            done => done,
        }
    }
}

/// Takes one frame into the response gathered so far.
pub fn reassemble_step(acc: Accumulator, frame: Frame) -> (r: Progress)
    ensures
        r@ == step_model(acc@, frame@),
{
    match frame {
        Frame::Text { decoded, fin } => {
            let mut gathered = match acc {
                Accumulator::Binary(_) => {
                    return Progress::Failed(
                        Qusb2snesError::FrameError {
                            msg: String::from_str("text frame amid a binary response"),
                        },
                    );
                },
                Accumulator::Text(v) => v,
                Accumulator::Empty => Vec::new(),
            };
            match decoded {
                Err(e) => Progress::Failed(Qusb2snesError::MessageError { source: e }),
                Ok(ResultData::Binary(_)) => Progress::Failed(
                    Qusb2snesError::FrameError { msg: String::from_str("Unable to handle text frame") },
                ),
                Ok(ResultData::Text(mut res)) => {
                    gathered.append(&mut res);
                    if fin {
                        Progress::Complete(ResultData::Text(gathered))
                    } else {
                        Progress::Pending(Accumulator::Text(gathered))
                    }
                },
            }
        },
        Frame::Binary { mut payload, fin } => {
            let mut gathered = match acc {
                Accumulator::Text(_) => {
                    return Progress::Failed(
                        Qusb2snesError::FrameError {
                            msg: String::from_str("binary frame amid a text response"),
                        },
                    );
                },
                Accumulator::Binary(b) => b,
                Accumulator::Empty => Vec::new(),
            };
            gathered.append(&mut payload);
            if fin {
                Progress::Complete(ResultData::Binary(gathered))
            } else {
                Progress::Pending(Accumulator::Binary(gathered))
            }
        },
        Frame::Close => Progress::Failed(
            Qusb2snesError::FrameError { msg: String::from_str("Websocket closed") },
        ),
        Frame::Other => Progress::Pending(acc),
    }
}

/// The contents of a run of frames.
pub open spec fn frames_view(frames: Seq<Frame>) -> Seq<FrameModel> {
    frames.map_values(|f: Frame| f@)
}

/// Reassembles a response from `frames`, in the order received: the
/// response once a frame completes it, the fault once one fails it, or what
/// was gathered where the frames run out first.
pub fn reassemble(frames: Vec<Frame>) -> (r: Progress)
    ensures
        r@ == run_model(Gathered::Empty, frames_view(frames@)),
{
    let ghost all = frames_view(frames@);
    let mut rest = frames;
    let mut acc = Accumulator::Empty;
    while rest.len() > 0
        invariant
            all == frames_view(frames@),
            run_model(Gathered::Empty, all) == run_model(acc@, frames_view(rest@)),
        decreases rest.len(),
    {
        let ghost before = frames_view(rest@);
        let frame = rest.remove(0);
        assert(frames_view(rest@) =~= before.drop_first());
        assert(before[0] == frame@);
        let ghost g = acc@;
        let step = reassemble_step(acc, frame);
        assert(run_model(g, before) == match step_model(g, before[0]) {
            Outcome::Pending(next) => run_model(next, before.drop_first()),
            done => done,
        });
        match step {
            Progress::Pending(next) => {
                acc = next;
            },
            _ => {
                assert(!(step@ is Pending));
                return step;
            },
        }
    }
    Progress::Pending(acc)
}

/// The bytes of a run of binary frames, joined in order.
pub open spec fn joined_payloads(frames: Seq<FrameModel>) -> Seq<u8>
    decreases frames.len(),
{
    if frames.len() == 0 {
        Seq::empty()
    } else {
        let rest = joined_payloads(frames.drop_first());
        match frames[0] {
            FrameModel::Binary { payload, .. } => payload + rest,
            _ => rest,
        }
    }
}

/// Binary frames whose completion flag is set on the last one only yield,
/// from nothing or from bytes gathered so far, those bytes followed by every
/// payload in the order received.
pub proof fn lemma_binary_frames_join(g: Gathered, frames: Seq<FrameModel>)
    requires
        g is Empty || g is Binary,
        frames.len() > 0,
        forall|i: int| 0 <= i < frames.len() ==> #[trigger] frames[i] is Binary,
        forall|i: int|
            0 <= i < frames.len() ==> (#[trigger] frames[i]->Binary_fin <==> i == frames.len() - 1),
    ensures
        run_model(g, frames) == Outcome::DoneBinary(gathered_bytes(g) + joined_payloads(frames)),
    decreases frames.len(),
{
    let f = frames[0];
    assert(f is Binary);
    let next = gathered_bytes(g) + f->Binary_payload;
    if frames.len() > 1 {
        let rest = frames.drop_first();
        assert forall|i: int| 0 <= i < rest.len() implies #[trigger] rest[i] is Binary && (
        rest[i]->Binary_fin <==> i == rest.len() - 1) by {
            assert(rest[i] == frames[i + 1]);
        }
        lemma_binary_frames_join(Gathered::Binary(next), rest);
        assert(next + joined_payloads(rest) =~= gathered_bytes(g) + joined_payloads(frames));
    } else {
        assert(joined_payloads(frames.drop_first()) =~= Seq::<u8>::empty());
        assert(next =~= gathered_bytes(g) + joined_payloads(frames));
    }
}

/// Whether a frame carries the completion flag.
pub open spec fn completes(f: FrameModel) -> bool {
    match f {
        FrameModel::Text { fin, .. } => fin,
        FrameModel::Binary { fin, .. } => fin,
        _ => false,
    }
}

/// A close that comes before any frame with the completion flag fails the
/// response: never a success, and a frame fault unless an earlier text
/// payload could not be decoded.
pub proof fn lemma_close_before_completion_fails(g: Gathered, frames: Seq<FrameModel>, k: int)
    requires
        0 <= k < frames.len(),
        frames[k] is Close,
        forall|j: int| 0 <= j < k ==> !completes(#[trigger] frames[j]),
    ensures
        run_model(g, frames) is FrameFault || run_model(g, frames) is MessageFault,
        (forall|j: int|
            0 <= j < k ==> !(#[trigger] frames[j] matches FrameModel::Text { decoded: None, .. }))
            ==> run_model(g, frames) is FrameFault,
    decreases k,
{
    if k > 0 {
        let rest = frames.drop_first();
        assert forall|j: int| 0 <= j < k - 1 implies !completes(#[trigger] rest[j]) by {
            assert(rest[j] == frames[j + 1]);
            assert(!completes(frames[j + 1]));
        }
        assert(!completes(frames[0]));
        match step_model(g, frames[0]) {
            Outcome::Pending(next) => {
                lemma_close_before_completion_fails(next, rest, k - 1);
                if forall|j: int|
                    0 <= j < k ==> !(#[trigger] frames[j] matches FrameModel::Text {
                        decoded: None,
                        ..
                    }) {
                    assert forall|j: int| 0 <= j < k - 1 implies !(
                    #[trigger] rest[j] matches FrameModel::Text { decoded: None, .. }) by {
                        assert(rest[j] == frames[j + 1]);
                    }
                }
            },
            _ => {
            },
        }
    }
}

} // verus!
