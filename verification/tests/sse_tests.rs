use chatbot_llm::sse::SseDecoder;

const HI_EVENT: &str = "data: {\"choices\":[{\"delta\":{\"content\":\"Hi\"}}]}\n\n";

fn decode_all(chunks: &[&[u8]]) -> Vec<String> {
    let mut decoder = SseDecoder::new();
    let mut out: Vec<String> = Vec::new();
    for chunk in chunks {
        out.extend(decoder.push_chunk(chunk));
    }
    out
}

#[test]
fn one_chunk_yields_single_delta() {
    let deltas = decode_all(&[HI_EVENT.as_bytes()]);
    assert_eq!(deltas, vec!["Hi".to_string()]);
}

#[test]
fn two_chunks_yield_same_delta() {
    let bytes = HI_EVENT.as_bytes();
    for mid in 1..bytes.len() {
        let deltas = decode_all(&[&bytes[..mid], &bytes[mid..]]);
        assert_eq!(deltas, vec!["Hi".to_string()], "split at {}", mid);
    }
}

#[test]
fn byte_by_byte_chunks_yield_same_delta() {
    let bytes = HI_EVENT.as_bytes();
    let chunks: Vec<&[u8]> = bytes.chunks(1).collect();
    let deltas = decode_all(&chunks);
    assert_eq!(deltas, vec!["Hi".to_string()]);
}

#[test]
fn done_line_yields_no_delta_and_no_error() {
    let deltas = decode_all(&[b"data: [DONE]\n\n"]);
    assert!(deltas.is_empty());
}

#[test]
fn done_line_between_events_is_skipped() {
    let stream = b"data: {\"choices\":[{\"delta\":{\"content\":\"a\"}}]}\n\ndata: [DONE]\n\n";
    let deltas = decode_all(&[stream]);
    assert_eq!(deltas, vec!["a".to_string()]);
}

#[test]
fn malformed_line_is_skipped_and_decoding_continues() {
    let stream = b"data: {not json}\ndata: {\"choices\":[{\"delta\":{\"content\":\"ok\"}}]}\n";
    let deltas = decode_all(&[stream]);
    assert_eq!(deltas, vec!["ok".to_string()]);
}

#[test]
fn unterminated_trailing_fragment_is_dropped() {
    let stream = b"data: {\"choices\":[{\"delta\":{\"content\":\"kept\"}}]}\ndata: {\"choices\":[{\"delta\":{\"content\":\"lost\"}}]}";
    let deltas = decode_all(&[stream]);
    assert_eq!(deltas, vec!["kept".to_string()]);
}

#[test]
fn non_data_lines_are_ignored() {
    let stream = b"event: message\nid: 7\n\ndata: {\"choices\":[{\"delta\":{\"content\":\"x\"}}]}\n";
    let deltas = decode_all(&[stream]);
    assert_eq!(deltas, vec!["x".to_string()]);
}

#[test]
fn delta_without_content_yields_nothing() {
    let stream = b"data: {\"choices\":[{\"delta\":{\"role\":\"assistant\"}}]}\ndata: {\"choices\":[{\"delta\":{},\"finish_reason\":\"stop\"}]}\n";
    let deltas = decode_all(&[stream]);
    assert!(deltas.is_empty());
}

#[test]
fn multibyte_content_split_across_chunks_is_reassembled() {
    let event = "data: {\"choices\":[{\"delta\":{\"content\":\"héllo\"}}]}\n";
    let bytes = event.as_bytes();
    for mid in 1..bytes.len() {
        let deltas = decode_all(&[&bytes[..mid], &bytes[mid..]]);
        assert_eq!(deltas, vec!["héllo".to_string()], "split at {}", mid);
    }
}

#[test]
fn deltas_keep_arrival_order() {
    let stream = b"data: {\"choices\":[{\"delta\":{\"content\":\"one\"}}]}\ndata: {\"choices\":[{\"delta\":{\"content\":\"two\"}}]}\ndata: {\"choices\":[{\"delta\":{\"content\":\"three\"}}]}\n";
    let deltas = decode_all(&[stream]);
    assert_eq!(
        deltas,
        vec!["one".to_string(), "two".to_string(), "three".to_string()]
    );
}

#[test]
fn empty_chunks_change_nothing() {
    let mut decoder = SseDecoder::new();
    assert!(decoder.push_chunk(b"").is_empty());
    let first = decoder.push_chunk(b"data: {\"choices\":[{\"delta\":{\"content\":\"z\"}}]}");
    assert!(first.is_empty());
    let second = decoder.push_chunk(b"\n");
    assert_eq!(second, vec!["z".to_string()]);
}

#[test]
fn a_payload_with_extra_fields_still_yields_its_content() {
    let stream = b"data: {\"id\":\"c-1\",\"object\":\"chat.completion.chunk\",\"choices\":[{\"index\":0,\"delta\":{\"content\":\"w\"},\"finish_reason\":null}]}\n";
    let deltas = decode_all(&[stream]);
    assert_eq!(deltas, vec!["w".to_string()]);
}
