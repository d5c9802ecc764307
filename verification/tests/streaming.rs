use bridge_core::completion::{CompletionStream, StreamError};
use bridge_core::messages::Status;

#[test]
fn streamed_tool_call_reassembly() {
    let mut stream = CompletionStream::new();
    stream
        .feed(
            "data: {\"choices\":[{\"delta\":{\"tool_calls\":[{\"id\":\"x\",\"function\":{\"name\":\"f\",\"arguments\":\"{\\\"a\\\":\"}}]}}]}\n\n",
        )
        .unwrap();
    stream
        .feed(
            "data: {\"choices\":[{\"delta\":{\"tool_calls\":[{\"function\":{\"arguments\":\"1}\"}}]}}]}\n\n",
        )
        .unwrap();
    stream.feed("data: [DONE]\n\n").unwrap();
    assert_eq!(stream.tool_calls.len(), 1);
    assert_eq!(stream.tool_calls[0].id, "x");
    assert_eq!(stream.tool_calls[0].function.name, "f");
    assert_eq!(stream.tool_calls[0].function.arguments, "{\"a\":1}");
    assert_eq!(stream.status, Status::WaitingForToolCall);
    assert!(stream.finish().is_ok());
}

#[test]
fn frame_split_across_chunk_boundary() {
    let whole = "data: {\"choices\":[{\"delta\":{\"content\":\"hello\"}}]}\n\ndata: [DONE]\n\n";
    let mut one = CompletionStream::new();
    one.feed(whole).unwrap();

    let mut two = CompletionStream::new();
    two.feed("data: {\"ch").unwrap();
    two.feed("oices\":[{\"delta\":{\"content\":\"hello\"}}]}\n\ndata: [DONE]\n\n")
        .unwrap();

    assert_eq!(one.content, two.content);
    assert_eq!(one.content.as_deref(), Some("hello"));
    assert_eq!(one.status, two.status);
    assert_eq!(one.status, Status::Completed);
}

#[test]
fn content_accumulates_in_stream_order() {
    let mut stream = CompletionStream::new();
    stream
        .feed("data: {\"choices\":[{\"delta\":{\"content\":\"foo \"}}]}\n\n")
        .unwrap();
    stream
        .feed("data: {\"choices\":[{\"delta\":{\"content\":\"bar\"}}]}\n\ndata: [DONE]\n\n")
        .unwrap();
    assert_eq!(stream.content.as_deref(), Some("foo bar"));
    assert_eq!(stream.status, Status::Completed);
}

#[test]
fn finalize_without_tool_calls_is_completed() {
    let mut stream = CompletionStream::new();
    stream.feed("data: [DONE]\n\n").unwrap();
    assert_eq!(stream.status, Status::Completed);
    assert!(stream.finish().is_ok());
    assert!(stream.status != Status::Writing);
}

#[test]
fn stream_ending_without_done_is_failed() {
    let mut stream = CompletionStream::new();
    stream
        .feed("data: {\"choices\":[{\"delta\":{\"content\":\"partial\"}}]}\n\n")
        .unwrap();
    let r = stream.finish();
    assert_eq!(r, Err(StreamError::Incomplete));
    assert_eq!(stream.status, Status::Failed);
}

#[test]
fn done_without_final_separator_is_flushed_at_finish() {
    let mut stream = CompletionStream::new();
    stream
        .feed("data: {\"choices\":[{\"delta\":{\"content\":\"x\"}}]}\n\ndata: [DONE]")
        .unwrap();
    // the terminator is still buffered
    assert_eq!(stream.status, Status::Writing);
    assert!(stream.finish().is_ok());
    assert_eq!(stream.status, Status::Completed);
}

#[test]
fn invalid_complete_frame_fails_the_stream() {
    let mut stream = CompletionStream::new();
    let r = stream.feed("data: {not json}\n\n");
    assert_eq!(r, Err(StreamError::InvalidFrame));
}

#[test]
fn complete_frame_without_prefix_fails_the_stream() {
    let mut stream = CompletionStream::new();
    let r = stream.feed(": keep-alive comment\n\n");
    assert_eq!(r, Err(StreamError::MissingPrefix));
    // blank frames, by contrast, are skipped
    let mut blank = CompletionStream::new();
    blank.feed("\n\n\n\ndata: [DONE]\n\n").unwrap();
    assert_eq!(blank.status, Status::Completed);
}

#[test]
fn fragment_with_repeated_id_starts_a_new_call() {
    let mut stream = CompletionStream::new();
    stream
        .feed("data: {\"choices\":[{\"delta\":{\"tool_calls\":[{\"id\":\"a\",\"function\":{\"name\":\"f\",\"arguments\":\"{}\"}}]}}]}\n\n")
        .unwrap();
    stream
        .feed("data: {\"choices\":[{\"delta\":{\"tool_calls\":[{\"id\":\"a\",\"function\":{\"name\":\"g\",\"arguments\":\"{}\"}}]}}]}\n\ndata: [DONE]\n\n")
        .unwrap();
    // an id-bearing fragment always starts a new call; it never overwrites
    // the accumulated one
    assert_eq!(stream.tool_calls.len(), 2);
    assert_eq!(stream.tool_calls[0].function.name, "f");
    assert_eq!(stream.tool_calls[1].function.name, "g");
}

#[test]
fn tool_call_arguments_are_cleaned_at_finalize() {
    let mut stream = CompletionStream::new();
    stream
        .feed(
            "data: {\"choices\":[{\"delta\":{\"tool_calls\":[{\"id\":\"a\",\"function\":{\"name\":\"g\",\"arguments\":\"{\\n\\\"t\\\": \\\"x\\ny\\\"\\n}\"}}]}}]}\n\n",
        )
        .unwrap();
    stream.feed("data: [DONE]\n\n").unwrap();
    assert_eq!(stream.tool_calls.len(), 1);
    assert_eq!(stream.tool_calls[0].function.arguments, "{\"t\": \"x\\ny\"}");
    assert_eq!(stream.status, Status::WaitingForToolCall);
}

#[test]
fn new_id_starts_a_new_tool_call() {
    let mut stream = CompletionStream::new();
    stream
        .feed("data: {\"choices\":[{\"delta\":{\"tool_calls\":[{\"id\":\"a\",\"function\":{\"name\":\"f\",\"arguments\":\"{}\"}}]}}]}\n\n")
        .unwrap();
    stream
        .feed("data: {\"choices\":[{\"delta\":{\"tool_calls\":[{\"id\":\"b\",\"function\":{\"name\":\"g\",\"arguments\":\"{}\"}}]}}]}\n\ndata: [DONE]\n\n")
        .unwrap();
    assert_eq!(stream.tool_calls.len(), 2);
    assert_eq!(stream.tool_calls[0].id, "a");
    assert_eq!(stream.tool_calls[1].id, "b");
}
