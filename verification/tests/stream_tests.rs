use helios_engine::file_tools::{write_with_replacements, StreamReplace};
use helios_engine::llm::{Delta, SseBuffer, StreamAccumulator, StreamChoice, StreamChunk};
use helios_engine::chat::Role;

fn pieces(chunks: &[&str]) -> (Vec<String>, String) {
    let mut b = SseBuffer::new();
    let mut out = Vec::new();
    for c in chunks {
        out.extend(b.push(c));
    }
    (out, b.pending)
}

#[test]
fn sse_split_anywhere_gives_same_data() {
    let whole = pieces(&["data: {\"a\":1}\n\ndata: [DONE]\ndata: tail"]);
    let split = pieces(&["da", "ta: {\"a\"", ":1}\n", "\ndata: [DO", "NE]\ndata: ta", "il"]);
    assert_eq!(whole, split);
    assert_eq!(whole.0, vec!["{\"a\":1}".to_string()]);
    assert_eq!(whole.1, "data: tail");
}

#[test]
fn sse_ignores_other_lines_and_trims() {
    let (out, pending) = pieces(&["  data: x  \nevent: y\n: comment\n"]);
    assert_eq!(out, vec!["x".to_string()]);
    assert_eq!(pending, "");
}

fn chunk(role: Option<&str>, content: Option<&str>) -> StreamChunk {
    StreamChunk {
        id: "c".to_string(),
        object: "chat.completion.chunk".to_string(),
        created: 0,
        model: "m".to_string(),
        choices: vec![StreamChoice {
            index: 0,
            delta: Delta { role: role.map(|r| r.to_string()), content: content.map(|c| c.to_string()) },
            finish_reason: None,
        }],
    }
}

#[test]
fn stream_accumulator_assembles_reply() {
    let mut acc = StreamAccumulator::new();
    assert_eq!(acc.on_chunk(&chunk(Some("assistant"), None)), None);
    assert_eq!(acc.on_chunk(&chunk(None, Some("Hel"))), Some("Hel".to_string()));
    assert_eq!(acc.on_chunk(&chunk(None, Some("lo"))), Some("lo".to_string()));
    let m = acc.finish();
    assert_eq!(m.role, Role::Assistant);
    assert_eq!(m.content, "Hello");
}

fn stream(needle: &[u8], rep: &[u8], chunks: &[&[u8]]) -> (Vec<u8>, usize) {
    let mut s = StreamReplace::new(needle.to_vec(), rep.to_vec());
    let mut out = Vec::new();
    for c in chunks {
        s.feed(c, &mut out);
    }
    let n = s.finish(&mut out);
    (out, n)
}

#[test]
fn one_byte_needle_streams_like_whole_replace() {
    let text: &[u8] = b"a,b,,c,";
    let mut whole = Vec::new();
    let n = write_with_replacements(&mut whole, text, b",", b";;");
    let streamed = stream(b",", b";;", &[b"a,", b"b", b",,c", b","]);
    assert_eq!(streamed, (whole, n));
    assert_eq!(n, 4);
}

#[test]
fn longer_needle_is_found_however_the_stream_is_cut() {
    let (out, n) = stream(b"world", b"there", &[b"hello world"]);
    assert_eq!(n, 1);
    assert_eq!(out, b"hello there".to_vec());
    let (out, n) = stream(b"ab", b"X", &[b"xab"]);
    assert_eq!((out, n), (b"xX".to_vec(), 1));
    let text: &[u8] = b"abcabcab cababc";
    let mut whole = Vec::new();
    let count = write_with_replacements(&mut whole, text, b"abc", b"-");
    for cut1 in 0..text.len() {
        for cut2 in cut1..text.len() {
            let got = stream(b"abc", b"-", &[&text[..cut1], &text[cut1..cut2], &text[cut2..]]);
            assert_eq!(got, (whole.clone(), count));
        }
    }
    assert_eq!(count, 3);
}

#[test]
fn replace_streaming_over_chunks() {
    let mut out = Vec::new();
    let n = helios_engine::file_tools::replace_streaming(
        &vec![b"world, hello".to_vec(), b" world and more text".to_vec()],
        b"world",
        b"there",
        &mut out,
    );
    assert_eq!(n, 2);
    assert_eq!(out, b"there, hello there and more text".to_vec());
    let mut out = Vec::new();
    let n = helios_engine::file_tools::replace_streaming(&vec![b"a-b".to_vec(), b"-c".to_vec()], b"-", b"+", &mut out);
    assert_eq!((out, n), (b"a+b+c".to_vec(), 2));
}
