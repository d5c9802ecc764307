//! Incremental assembly of a streamed chat completion.
//!
//! A [`CompletionStream`] starts as a `Writing` assistant message and
//! consumes raw stream chunks.  Complete frames (see [`crate::sse`]) are
//! decoded: a `data: [DONE]` frame finalizes the message — the tool-call
//! arguments are cleaned of literal newlines and the status becomes
//! `WaitingForToolCall` when tool calls accreted, else `Completed`; any
//! other `data: ` frame is a JSON delta whose content and tool-call
//! fragments are appended to the accumulating state.  A complete frame
//! without the `data: ` prefix, or one that does not decode, fails the
//! stream, and at stream end a message that never left `Writing` is closed
//! as `Failed`.

use vstd::prelude::*;

use crate::jsonclean::{cleanup_json_string_newlines, spec_cleanup};
use crate::messages::Status;
use crate::openai::{tool_call_views, FunctionCall, ToolCall, ToolCallView, ToolType};
use crate::sse::{extract_frames, extract_rem, find_separator, lemma_extract_append};
use crate::strutil::{
    chars_eq_str, chars_starts_with_str, chars_suffix, chars_to_string, spec_trim, str_to_chars,
    trim_chars,
};

verus! {

/// One streamed tool-call fragment of a delta frame.
#[derive(Debug, Clone)]
pub struct DeltaToolCall {
    pub id: Option<String>,
    pub name: Option<String>,
    pub arguments: Option<String>,
}

/// The view of a tool-call fragment.
pub ghost struct DeltaToolCallView {
    pub id: Option<Seq<char>>,
    pub name: Option<Seq<char>>,
    pub arguments: Option<Seq<char>>,
}

impl View for DeltaToolCall {
    type V = DeltaToolCallView;

    open spec fn view(&self) -> DeltaToolCallView {
        DeltaToolCallView {
            id: match self.id {
                Some(ref s) => Some(s@),
                None => None,
            },
            name: match self.name {
                Some(ref s) => Some(s@),
                None => None,
            },
            arguments: match self.arguments {
                Some(ref s) => Some(s@),
                None => None,
            },
        }
    }
}

/// One decoded delta frame: optional content to append, and at most one
/// tool-call fragment.
#[derive(Debug, Clone)]
pub struct DeltaFrame {
    pub content: Option<String>,
    pub tool_call: Option<DeltaToolCall>,
}

/// The view of a delta frame.
pub ghost struct DeltaFrameView {
    pub content: Option<Seq<char>>,
    pub tool_call: Option<DeltaToolCallView>,
}

impl View for DeltaFrame {
    type V = DeltaFrameView;

    open spec fn view(&self) -> DeltaFrameView {
        DeltaFrameView {
            content: match self.content {
                Some(ref s) => Some(s@),
                None => None,
            },
            tool_call: match self.tool_call {
                Some(ref t) => Some(t@),
                None => None,
            },
        }
    }
}

/// The delta frame a `data: ` payload decodes to, or nothing when the
/// payload is not valid JSON.  The decoding is a function of the text alone.
pub uninterp spec fn delta_frame_of(s: Seq<char>) -> Option<DeltaFrameView>;

/// Relies on `serde_json::from_str` and `serde_json::Value::{pointer,
/// as_str}`: decodes a streamed completion chunk, reading
/// `choices[0].delta` for a string `content` and the first entry of
/// `tool_calls` with its `id` and `function.name` / `function.arguments`
/// strings.  Returns nothing exactly when the payload is not valid JSON;
/// the result depends on the payload alone.
#[verifier::external_body]
fn parse_delta_frame(s: &str) -> (r: Option<DeltaFrame>)
    ensures
        match r {
            Some(f) => delta_frame_of(s@) == Some(f@),
            None => delta_frame_of(s@) is None,
        },
{
    let v: serde_json::Value = serde_json::from_str(s).ok()?;
    let content = v.pointer("/choices/0/delta/content").and_then(|c| c.as_str()).map(str::to_owned);
    let tool_call = v.pointer("/choices/0/delta/tool_calls/0").map(|t| DeltaToolCall {
        id: t.pointer("/id").and_then(|x| x.as_str()).map(str::to_owned),
        name: t.pointer("/function/name").and_then(|x| x.as_str()).map(str::to_owned),
        arguments: t.pointer("/function/arguments").and_then(|x| x.as_str()).map(str::to_owned),
    });
    Some(DeltaFrame { content, tool_call })
}

/// The model of an assembling completion: accumulated content, accreted
/// tool calls, the message status, and whether the terminator frame came.
pub ghost struct StreamModel {
    pub content: Option<Seq<char>>,
    pub tool_calls: Seq<ToolCallView>,
    pub status: Status,
    pub done: bool,
}

/// The state a streaming completion starts in.
pub open spec fn init_model() -> StreamModel {
    StreamModel {
        content: None,
        tool_calls: Seq::<ToolCallView>::empty(),
        status: Status::Writing,
        done: false,
    }
}

/// A tool call with empty id, name and arguments.
pub open spec fn fresh_tool_call() -> ToolCallView {
    ToolCallView { id: Seq::empty(), name: Seq::empty(), arguments: Seq::empty() }
}

/// The text of an optional fragment; absent means empty.
pub open spec fn opt_seq(o: Option<Seq<char>>) -> Seq<char> {
    match o {
        Some(s) => s,
        None => Seq::<char>::empty(),
    }
}

/// A tool call extended by a fragment: each present field is appended.
pub open spec fn extended(base: ToolCallView, td: DeltaToolCallView) -> ToolCallView {
    ToolCallView {
        id: base.id + opt_seq(td.id),
        name: base.name + opt_seq(td.name),
        arguments: base.arguments + opt_seq(td.arguments),
    }
}

/// How one tool-call fragment changes the accreted calls: a fragment with
/// an `id` (or arriving first) starts a new call, which the fragment's
/// fields initialize; any other fragment extends the last call.
pub open spec fn apply_tool_delta_model(calls: Seq<ToolCallView>, td: DeltaToolCallView) -> Seq<
    ToolCallView,
> {
    if calls.len() == 0 || td.id is Some {
        calls.push(extended(fresh_tool_call(), td))
    } else {
        calls.drop_last().push(extended(calls.last(), td))
    }
}

/// Optional content extended by an optional fragment.
pub open spec fn append_content(base: Option<Seq<char>>, extra: Option<Seq<char>>) -> Option<
    Seq<char>,
> {
    match extra {
        None => base,
        Some(e) => Some(
            match base {
                None => e,
                Some(b) => b + e,
            },
        ),
    }
}

/// How one delta frame changes the model: content is appended and the
/// tool-call fragment, if any, is applied; status and termination are
/// untouched.
pub open spec fn apply_frame_model(m: StreamModel, f: DeltaFrameView) -> StreamModel {
    StreamModel {
        content: append_content(m.content, f.content),
        tool_calls: match f.tool_call {
            None => m.tool_calls,
            Some(td) => apply_tool_delta_model(m.tool_calls, td),
        },
        status: m.status,
        done: m.done,
    }
}

/// A tool call with its arguments cleaned of literal newlines.
pub open spec fn clean_tool_call(t: ToolCallView) -> ToolCallView {
    ToolCallView { id: t.id, name: t.name, arguments: spec_cleanup(t.arguments) }
}

/// The finalized model: tool-call arguments are cleaned of literal
/// newlines, and the status closes as `WaitingForToolCall` when tool calls
/// accreted, else as `Completed`.
pub open spec fn finalize_model(m: StreamModel) -> StreamModel {
    StreamModel {
        content: m.content,
        tool_calls: m.tool_calls.map_values(|t: ToolCallView| clean_tool_call(t)),
        status: if m.tool_calls.len() > 0 {
            Status::WaitingForToolCall
        } else {
            Status::Completed
        },
        done: true,
    }
}

/// A message holding tool calls finalizes as `WaitingForToolCall`; one
/// without finalizes as `Completed`; a finalized message is never left
/// `Writing`.
pub proof fn lemma_finalize_status(m: StreamModel)
    ensures
        m.tool_calls.len() > 0 ==> finalize_model(m).status == Status::WaitingForToolCall,
        m.tool_calls.len() == 0 ==> finalize_model(m).status == Status::Completed,
        finalize_model(m).status != Status::Writing,
        finalize_model(m).tool_calls.len() == m.tool_calls.len(),
{
}

/// Why a stream could not be assembled into a completed message.
#[derive(Debug, Clone, Copy, PartialEq, Eq, Structural)]
pub enum StreamError {
    /// A complete frame did not carry the `data: ` prefix.
    MissingPrefix,
    /// A complete `data: ` frame was not valid JSON.
    InvalidFrame,
    /// The stream ended before the message left `Writing`.
    Incomplete,
}

/// How one complete frame changes the model, or which error it raises:
/// blank frames are skipped, the `data: [DONE]` frame finalizes the message
/// (once), any other `data: ` frame must decode as JSON and is applied as a
/// delta (frames after the terminator are ignored), and a complete frame
/// without the `data: ` prefix is an error — it cannot become valid by more
/// bytes, so the bounded retry the stream protocol allows has already
/// failed.
pub open spec fn process_frame_model(m: StreamModel, piece: Seq<char>) -> Result<
    StreamModel,
    StreamError,
> {
    let t = spec_trim(piece);
    if t.len() == 0 {
        Ok(m)
    } else if t == "data: [DONE]"@ {
        Ok(
            if m.done {
                m
            } else {
                finalize_model(m)
            },
        )
    } else if t.len() >= 6 && t.subrange(0, 6) == "data: "@ {
        match delta_frame_of(t.subrange(6, t.len() as int)) {
            None => Err(StreamError::InvalidFrame),
            Some(f) => Ok(
                if m.done {
                    m
                } else {
                    apply_frame_model(m, f)
                },
            ),
        }
    } else {
        Err(StreamError::MissingPrefix)
    }
}

/// Where a fold over frames ends: the model it reached, and the error of
/// the frame it stopped at, if any.
pub ghost struct FoldOutcome {
    pub model: StreamModel,
    pub error: Option<StreamError>,
}

/// Folds [`process_frame_model`] over a sequence of complete frames,
/// stopping at the first failing frame; the outcome carries the model
/// reached just before the failure.
pub open spec fn fold_frames_model(m: StreamModel, frames: Seq<Seq<char>>) -> FoldOutcome
    decreases frames.len(),
{
    if frames.len() == 0 {
        FoldOutcome { model: m, error: None }
    } else {
        match process_frame_model(m, frames.first()) {
            Err(e) => FoldOutcome { model: m, error: Some(e) },
            Ok(m2) => fold_frames_model(m2, frames.drop_first()),
        }
    }
}

/// Folding over concatenated frame lists is folding in stages.
pub proof fn lemma_fold_append(m: StreamModel, fs1: Seq<Seq<char>>, fs2: Seq<Seq<char>>)
    ensures
        fold_frames_model(m, fs1 + fs2) == (if fold_frames_model(m, fs1).error is Some {
            fold_frames_model(m, fs1)
        } else {
            fold_frames_model(fold_frames_model(m, fs1).model, fs2)
        }),
    decreases fs1.len(),
{
    if fs1.len() == 0 {
        assert(fs1 + fs2 =~= fs2);
    } else {
        assert((fs1 + fs2).first() == fs1.first());
        assert((fs1 + fs2).drop_first() =~= fs1.drop_first() + fs2);
        match process_frame_model(m, fs1.first()) {
            Err(_) => {},
            Ok(m2) => {
                lemma_fold_append(m2, fs1.drop_first(), fs2);
            },
        }
    }
}

/// The state after feeding a stream in two chunks is the state after
/// feeding their concatenation: an SSE frame split across a chunk boundary
/// is handled exactly as the whole frame.
pub proof fn lemma_chunk_split_irrelevant(m: StreamModel, rem: Seq<char>, a: Seq<char>, b: Seq<char>)
    ensures
        fold_frames_model(m, extract_frames(rem + (a + b))) == (if fold_frames_model(
            m,
            extract_frames(rem + a),
        ).error is Some {
            fold_frames_model(m, extract_frames(rem + a))
        } else {
            fold_frames_model(
                fold_frames_model(m, extract_frames(rem + a)).model,
                extract_frames(extract_rem(rem + a) + b),
            )
        }),
        extract_rem(rem + (a + b)) == extract_rem(extract_rem(rem + a) + b),
{
    assert(rem + (a + b) =~= (rem + a) + b);
    lemma_extract_append(rem + a, b);
    lemma_fold_append(m, extract_frames(rem + a), extract_frames(extract_rem(rem + a) + b));
}

/// The statuses an assembling message passes through before the stream is
/// closed: `Writing` until the terminator, then `WaitingForToolCall` or
/// `Completed`.
pub open spec fn live_model(m: StreamModel) -> bool {
    m.status == Status::Writing || m.status == Status::WaitingForToolCall || m.status
        == Status::Completed
}

/// Processing one frame keeps the model among the live statuses.
pub proof fn lemma_process_preserves_live(m: StreamModel, piece: Seq<char>)
    requires
        live_model(m),
    ensures
        process_frame_model(m, piece) matches Ok(m2) ==> live_model(m2),
{
}

/// Folding any frames keeps the model among the live statuses.
pub proof fn lemma_fold_preserves_live(m: StreamModel, frames: Seq<Seq<char>>)
    requires
        live_model(m),
    ensures
        live_model(fold_frames_model(m, frames).model),
    decreases frames.len(),
{
    if frames.len() > 0 {
        match process_frame_model(m, frames.first()) {
            Err(_) => {},
            Ok(m2) => {
                lemma_process_preserves_live(m, frames.first());
                lemma_fold_preserves_live(m2, frames.drop_first());
            },
        }
    }
}

/// An assembling streamed completion: the accumulating assistant message
/// plus the undelivered tail of the byte stream.
#[derive(Debug)]
pub struct CompletionStream {
    pub content: Option<String>,
    pub tool_calls: Vec<ToolCall>,
    pub status: Status,
    pub done: bool,
    pub remainder: Vec<char>,
}

impl CompletionStream {
    /// The model of the assembling message.
    pub open spec fn model(&self) -> StreamModel {
        StreamModel {
            content: match self.content {
                Some(ref c) => Some(c@),
                None => None,
            },
            tool_calls: tool_call_views(self.tool_calls@),
            status: self.status,
            done: self.done,
        }
    }

    /// A fresh stream: an empty `Writing` message and no buffered text.
    pub fn new() -> (r: CompletionStream)
        ensures
            r.model() == init_model(),
            r.remainder@.len() == 0,
            live_model(r.model()),
    {
        let r = CompletionStream {
            content: None,
            tool_calls: Vec::new(),
            status: Status::Writing,
            done: false,
            remainder: Vec::new(),
        };
        proof {
            assert(tool_call_views(r.tool_calls@) =~= Seq::<ToolCallView>::empty());
        }
        r
    }

    /// Applies one tool-call fragment to the accreted calls.
    fn apply_tool_delta(&mut self, td: DeltaToolCall)
        ensures
            tool_call_views(final(self).tool_calls@) == apply_tool_delta_model(
                tool_call_views(old(self).tool_calls@),
                td@,
            ),
            final(self).content == old(self).content,
            final(self).status == old(self).status,
            final(self).done == old(self).done,
            final(self).remainder == old(self).remainder,
    {
        let ghost old_views = tool_call_views(self.tool_calls@);
        let ghost tdv = td@;
        let DeltaToolCall { id, name, arguments } = td;
        let has_id = id.is_some();
        let started_fresh = self.tool_calls.len() == 0 || has_id;
        let ghost base = if started_fresh {
            fresh_tool_call()
        } else {
            old_views.last()
        };
        let mut cur: ToolCall;
        if started_fresh {
            cur = ToolCall {
                id: String::new(),
                type_: ToolType::Function,
                function: FunctionCall { name: String::new(), arguments: String::new() },
            };
        } else {
            cur = self.tool_calls.pop().unwrap();
            proof {
                assert(old_views.last() == old(self).tool_calls@.last()@);
                assert(cur@ == base);
            }
        }
        if let Some(s) = id {
            cur.id.append(s.as_str());
        }
        if let Some(s) = name {
            cur.function.name.append(s.as_str());
        }
        if let Some(s) = arguments {
            cur.function.arguments.append(s.as_str());
        }
        proof {
            assert(cur@.id =~= extended(base, tdv).id);
            assert(cur@.name =~= extended(base, tdv).name);
            assert(cur@.arguments =~= extended(base, tdv).arguments);
            assert(cur@ == extended(base, tdv));
        }
        self.tool_calls.push(cur);
        proof {
            assert(tool_call_views(self.tool_calls@) =~= apply_tool_delta_model(old_views, tdv));
        }
    }

    /// Applies one decoded delta frame to the accumulating message.
    fn apply_frame(&mut self, f: DeltaFrame)
        ensures
            final(self).model() == apply_frame_model(old(self).model(), f@),
            final(self).remainder == old(self).remainder,
    {
        let ghost old_model = self.model();
        let ghost fv = f@;
        let DeltaFrame { content, tool_call } = f;
        if let Some(c) = content {
            let cur = self.content.take();
            match cur {
                Some(mut b) => {
                    b.append(c.as_str());
                    self.content = Some(b);
                },
                None => {
                    self.content = Some(c);
                },
            }
        }
        if let Some(td) = tool_call {
            self.apply_tool_delta(td);
        }
        proof {
            assert(self.model() == apply_frame_model(old_model, fv));
        }
    }

    /// Finalizes the message on the terminator frame: cleans each tool
    /// call's arguments of literal newlines and closes the status.
    fn finalize(&mut self)
        ensures
            final(self).model() == finalize_model(old(self).model()),
            final(self).remainder == old(self).remainder,
    {
        let ghost old_model = self.model();
        self.status = if self.tool_calls.len() > 0 {
            Status::WaitingForToolCall
        } else {
            Status::Completed
        };
        self.done = true;
        let mut cleaned: Vec<ToolCall> = Vec::new();
        let mut i: usize = 0;
        while i < self.tool_calls.len()
            invariant
                0 <= i <= self.tool_calls@.len(),
                cleaned@.len() == i,
                forall|k: int|
                    0 <= k < i ==> #[trigger] cleaned@[k]@ == clean_tool_call(self.tool_calls@[k]@),
            decreases self.tool_calls@.len() - i,
        {
            let tc = &self.tool_calls[i];
            let new_args = cleanup_json_string_newlines(tc.function.arguments.as_str());
            let new_tc = ToolCall {
                id: tc.id.clone(),
                type_: ToolType::Function,
                function: FunctionCall { name: tc.function.name.clone(), arguments: new_args },
            };
            proof {
                assert(new_tc@.id == self.tool_calls@[i as int]@.id);
                assert(new_tc@.name == self.tool_calls@[i as int]@.name);
                assert(new_tc@.arguments == spec_cleanup(self.tool_calls@[i as int]@.arguments));
                assert(new_tc@ == clean_tool_call(self.tool_calls@[i as int]@));
            }
            cleaned.push(new_tc);
            i = i + 1;
        }
        self.tool_calls = cleaned;
        proof {
            let lhs = tool_call_views(self.tool_calls@);
            let rhs = old_model.tool_calls.map_values(|t: ToolCallView| clean_tool_call(t));
            assert forall|k: int| 0 <= k < lhs.len() implies lhs[k] == rhs[k] by {
                assert(lhs[k] == self.tool_calls@[k]@);
                assert(rhs[k] == clean_tool_call(old_model.tool_calls[k]));
            }
            assert(lhs =~= rhs);
            assert(self.model().tool_calls =~= finalize_model(old_model).tool_calls);
        }
    }

    /// Handles one complete frame.
    fn process_frame(&mut self, frame: &Vec<char>) -> (r: Result<(), StreamError>)
        ensures
            match r {
                Ok(()) => process_frame_model(old(self).model(), frame@) == Ok::<
                    StreamModel,
                    StreamError,
                >(final(self).model()),
                Err(e) => process_frame_model(old(self).model(), frame@) == Err::<
                    StreamModel,
                    StreamError,
                >(e) && final(self).model() == old(self).model(),
            },
            final(self).remainder == old(self).remainder,
    {
        let t = trim_chars(frame);
        if t.len() == 0 {
            return Ok(());
        }
        if chars_eq_str(&t, "data: [DONE]") {
            if !self.done {
                self.finalize();
            }
            return Ok(());
        }
        if chars_starts_with_str(&t, "data: ") {
            proof {
                reveal_strlit("data: ");
            }
            let body = chars_suffix(&t, 6);
            let body_str = chars_to_string(&body);
            match parse_delta_frame(body_str.as_str()) {
                Some(f) => {
                    if !self.done {
                        self.apply_frame(f);
                    }
                    Ok(())
                },
                None => Err(StreamError::InvalidFrame),
            }
        } else {
            proof {
                reveal_strlit("data: ");
            }
            Err(StreamError::MissingPrefix)
        }
    }

    /// Feeds one raw chunk of the stream: buffered text plus the chunk is
    /// split into complete frames, which are processed in order; the text
    /// after the last separator stays buffered.  Fails exactly when some
    /// complete frame lacks the `data: ` prefix or is not valid JSON; the
    /// message then holds the state the frames before the failing one
    /// built.
    #[verifier::loop_isolation(false)]
    pub fn feed(&mut self, chunk: &str) -> (r: Result<(), StreamError>)
        ensures
            ({
                let fo = fold_frames_model(
                    old(self).model(),
                    extract_frames(old(self).remainder@ + chunk@),
                );
                &&& final(self).model() == fo.model
                &&& match r {
                    Ok(()) => fo.error is None && final(self).remainder@ == extract_rem(
                        old(self).remainder@ + chunk@,
                    ),
                    Err(e) => fo.error == Some(e),
                }
            }),
            live_model(old(self).model()) ==> live_model(final(self).model()),
    {
        let ghost buf0 = old(self).remainder@ + chunk@;
        let ghost m0 = old(self).model();
        let mut cs = str_to_chars(chunk);
        self.remainder.append(&mut cs);
        proof {
            assert(self.remainder@ == buf0);
            assert(self.model() == m0);
        }
        loop
            invariant
                fold_frames_model(m0, extract_frames(buf0)) == fold_frames_model(
                    self.model(),
                    extract_frames(self.remainder@),
                ),
                extract_rem(buf0) == extract_rem(self.remainder@),
            decreases self.remainder@.len(),
        {
            let sep = find_separator(&self.remainder, 0);
            match sep {
                None => {
                    proof {
                        assert(extract_frames(self.remainder@) =~= Seq::<Seq<char>>::empty());
                        assert(extract_rem(self.remainder@) == self.remainder@);
                        if live_model(m0) {
                            lemma_fold_preserves_live(m0, extract_frames(buf0));
                        }
                    }
                    return Ok(());
                },
                Some(i) => {
                    let ghost pre_buf = self.remainder@;
                    let rem_len = self.remainder.len();
                    proof {
                        assert(i + 2 <= rem_len);
                    }
                    let mut tail = self.remainder.split_off(i + 2);
                    core::mem::swap(&mut self.remainder, &mut tail);
                    tail.truncate(i);
                    let frame = tail;
                    proof {
                        assert(frame@ =~= pre_buf.subrange(0, i as int));
                        assert(self.remainder@ =~= pre_buf.subrange(
                            i + 2,
                            pre_buf.len() as int,
                        ));
                        assert(extract_frames(pre_buf) == seq![frame@] + extract_frames(
                            self.remainder@,
                        ));
                        assert(extract_rem(pre_buf) == extract_rem(self.remainder@));
                    }
                    let ghost pre_model = self.model();
                    match self.process_frame(&frame) {
                        Ok(()) => {
                            proof {
                                let frames = seq![frame@] + extract_frames(self.remainder@);
                                assert(frames.first() == frame@);
                                assert(frames.drop_first() =~= extract_frames(self.remainder@));
                            }
                        },
                        Err(e) => {
                            proof {
                                let frames = seq![frame@] + extract_frames(self.remainder@);
                                assert(frames.first() == frame@);
                                assert(fold_frames_model(pre_model, frames) == (FoldOutcome {
                                    model: pre_model,
                                    error: Some(e),
                                }));
                                if live_model(m0) {
                                    lemma_fold_preserves_live(m0, extract_frames(buf0));
                                }
                            }
                            return Err(e);
                        },
                    }
                },
            }
        }
    }

    /// Closes the stream: the buffered tail, if any, is handled as a last
    /// frame (an undecodable tail is dropped as truncated), and a message
    /// that never left `Writing` is closed as `Failed`.  Afterwards the
    /// status is never `Writing`: success leaves it `WaitingForToolCall` or
    /// `Completed`, failure leaves it `Failed`.
    pub fn finish(&mut self) -> (r: Result<(), StreamError>)
        ensures
            ({
                let m2 = match process_frame_model(old(self).model(), old(self).remainder@) {
                    Ok(x) => x,
                    Err(_) => old(self).model(),
                };
                &&& final(self).remainder@.len() == 0
                &&& final(self).status != Status::Writing
                &&& (m2.status != Status::Writing ==> r is Ok && final(self).model() == m2)
                &&& (m2.status == Status::Writing ==> r == Err::<(), StreamError>(
                    StreamError::Incomplete,
                ) && final(self).model() == StreamModel { status: Status::Failed, ..m2 })
            }),
            live_model(old(self).model()) ==> ({
                &&& r is Ok ==> (final(self).status == Status::WaitingForToolCall
                    || final(self).status == Status::Completed)
                &&& r is Err ==> final(self).status == Status::Failed
            }),
    {
        proof {
            if live_model(old(self).model()) {
                lemma_process_preserves_live(old(self).model(), old(self).remainder@);
            }
        }
        let mut tail: Vec<char> = Vec::new();
        core::mem::swap(&mut self.remainder, &mut tail);
        let _ = self.process_frame(&tail);
        if self.status == Status::Writing {
            self.status = Status::Failed;
            return Err(StreamError::Incomplete);
        }
        Ok(())
    }
}

} // verus!
