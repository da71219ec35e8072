use git_cgi_bridge::cgi_env::{build_cgi_env, RequestDescriptor};
use git_cgi_bridge::header_parse::{parse_header_block, CgiHeaderParser, HeaderField};
use git_cgi_bridge::response_head::{
    bad_gateway_head, build_response_head, head_for_block, head_for_outcome,
};
use git_cgi_bridge::stream_ctl::{plan_relay_step, plan_stdin_step, StdinStep};
use git_cgi_bridge::CgiFailure;

fn descriptor(
    method: &str,
    path_suffix: &str,
    query: &str,
    content_type: Option<&str>,
    remote: Option<&str>,
) -> RequestDescriptor {
    RequestDescriptor {
        method: method.to_string(),
        path_suffix: path_suffix.to_string(),
        query: query.to_string(),
        content_type: content_type.map(|s| s.to_string()),
        content_encoding: None,
        remote_addr: remote.map(|s| s.to_string()),
    }
}

fn field(name: &str, value: &str) -> HeaderField {
    HeaderField {
        name: name.as_bytes().to_vec(),
        value: value.as_bytes().to_vec(),
    }
}

#[test]
fn empty_body_closes_stdin_at_once() {
    assert_eq!(plan_stdin_step(None), StdinStep::CloseStdin);
}

#[test]
fn body_chunks_forwarded_verbatim() {
    let chunk = vec![0u8, 1, 2, 255];
    assert_eq!(
        plan_stdin_step(Some(chunk.clone())),
        StdinStep::Forward(chunk)
    );
}

#[test]
fn relay_stops_on_empty_read() {
    assert_eq!(plan_relay_step(Vec::new()), None);
    let chunk = vec![7u8, 8, 9];
    assert_eq!(plan_relay_step(chunk.clone()), Some(chunk));
}

#[test]
fn status_line_sets_code_and_is_not_forwarded() {
    let input = b"Status: 404 Not Found\r\nContent-Type: text/plain\r\n\r\n";
    let (fields, _) = parse_header_block(input).unwrap();
    let head = head_for_block(&fields);
    assert_eq!(head.status, 404);
    assert!(head.fields.iter().all(|f| f.name != b"Status".to_vec()));
    assert_eq!(head.fields, vec![field("Content-Type", "text/plain")]);
}

#[test]
fn missing_status_defaults_to_200() {
    let input = b"Content-Type: text/plain\r\n\r\n";
    let (fields, _) = parse_header_block(input).unwrap();
    let head = head_for_block(&fields);
    assert_eq!(head.status, 200);
    assert_eq!(head.fields, vec![field("Content-Type", "text/plain")]);
}

#[test]
fn header_block_and_body_round_trip() {
    let input = b"Content-Type: text/plain\r\n\r\nHELLO";
    let (fields, consumed) = parse_header_block(input).unwrap();
    assert_eq!(fields, vec![field("Content-Type", "text/plain")]);
    let head = head_for_block(&fields);
    assert_eq!(head.status, 200);
    assert_eq!(head.fields, vec![field("Content-Type", "text/plain")]);
    assert_eq!(&input[consumed..], b"HELLO");
}

#[test]
fn identical_requests_build_identical_environments() {
    let a = build_cgi_env(
        "/srv/repo",
        "/crates.io-index/",
        descriptor("POST", "git-upload-pack", "", Some("application/x-git-upload-pack-request"), Some("10.0.0.5")),
    );
    let b = build_cgi_env(
        "/srv/repo",
        "/crates.io-index/",
        descriptor("POST", "git-upload-pack", "", Some("application/x-git-upload-pack-request"), Some("10.0.0.5")),
    );
    assert_eq!(a, b);
    assert_eq!(a.into_pairs(), b.into_pairs());
}

#[test]
fn malformed_header_line_is_skipped() {
    let input = b"X: 1\r\nnot-a-header-line\r\nY: 2\r\n\r\n";
    let (fields, consumed) = parse_header_block(input).unwrap();
    assert_eq!(fields, vec![field("X", "1"), field("Y", "2")]);
    assert_eq!(consumed, input.len());
}

#[test]
fn upload_pack_request_environment() {
    let env = build_cgi_env(
        "/srv/repo",
        "/crates.io-index/",
        descriptor("GET", "info/refs", "service=git-upload-pack", None, None),
    );
    assert_eq!(env.request_method, "GET");
    assert_eq!(env.query_string, "service=git-upload-pack");
    assert!(env.path_info.ends_with("/info/refs"));
    assert_eq!(env.path_info, "/crates.io-index/info/refs");
    assert_eq!(env.remote_addr, "127.0.0.1");
    assert_eq!(env.remote_user, "");
    assert_eq!(env.git_project_root, "/srv/repo");
    assert_eq!(env.git_http_export_all, "true");
    assert_eq!(env.content_type, None);
}

#[test]
fn environment_pairs_in_order_with_optional_content_type() {
    let env = build_cgi_env(
        "/srv/repo",
        "/crates.io-index/",
        descriptor("POST", "git-receive-pack", "", Some("application/x-git-receive-pack-request"), Some("192.168.1.9")),
    );
    let names: Vec<String> = env.into_pairs().into_iter().map(|p| p.name).collect();
    assert_eq!(
        names,
        vec![
            "GIT_PROJECT_ROOT",
            "PATH_INFO",
            "REQUEST_METHOD",
            "QUERY_STRING",
            "REMOTE_USER",
            "REMOTE_ADDR",
            "CONTENT_TYPE",
            "GIT_HTTP_EXPORT_ALL",
        ]
    );

    let env = build_cgi_env(
        "/srv/repo",
        "/crates.io-index/",
        descriptor("GET", "info/refs", "service=git-upload-pack", None, None),
    );
    let names: Vec<String> = env.into_pairs().into_iter().map(|p| p.name).collect();
    assert!(!names.contains(&"CONTENT_TYPE".to_string()));
    assert_eq!(names.len(), 7);
}

#[test]
fn truncated_header_block_fails_and_yields_bad_gateway() {
    let input = b"Content-Type: text/plain\r\n";
    let err = parse_header_block(input).unwrap_err();
    assert_eq!(err, CgiFailure::TruncatedHeader);
    let head = bad_gateway_head();
    assert_eq!(head.status, 502);
    assert!(head.fields.is_empty());
}

#[test]
fn malformed_status_value_yields_no_head() {
    let (fields, _) = parse_header_block(b"Status: abc\r\n\r\n").unwrap();
    assert!(build_response_head(&fields).is_none());
    assert_eq!(head_for_block(&fields).status, 502);

    let (fields, _) = parse_header_block(b"Status: 99\r\n\r\n").unwrap();
    assert!(build_response_head(&fields).is_none());

    let (fields, _) = parse_header_block(b"Status: 099 Weird\r\n\r\n").unwrap();
    assert!(build_response_head(&fields).is_none());
}

#[test]
fn repeated_name_keeps_last_value_in_place() {
    let input = b"A: 1\r\nB: x\r\nA: 2\r\n\r\n";
    let (fields, _) = parse_header_block(input).unwrap();
    assert_eq!(fields, vec![field("A", "2"), field("B", "x")]);
}

#[test]
fn bare_newline_lines_parse_without_carriage_return() {
    let input = b"Content-Type: application/x-git-upload-pack-advertisement\n\nbody";
    let (fields, consumed) = parse_header_block(input).unwrap();
    assert_eq!(
        fields,
        vec![field(
            "Content-Type",
            "application/x-git-upload-pack-advertisement"
        )]
    );
    assert_eq!(&input[consumed..], b"body");
}

#[test]
fn empty_value_and_separator_inside_value() {
    let (fields, _) = parse_header_block(b"X: \r\nY: a: b\r\n\r\n").unwrap();
    assert_eq!(fields, vec![field("X", ""), field("Y", "a: b")]);
}

#[test]
fn chunked_feeding_matches_single_feed() {
    let input = b"Status: 304 Not Modified\r\nETag: \"abc\"\r\n\r\ntail";
    let mut parser = CgiHeaderParser::new();
    let mut consumed = 0usize;
    for piece in input.chunks(3) {
        let n = parser.feed(piece);
        consumed += n;
        if parser.header_block_done() {
            break;
        }
    }
    assert!(parser.header_block_done());
    assert_eq!(&input[consumed..], b"tail");
    let fields = parser.into_fields();
    assert_eq!(
        fields,
        vec![field("Status", "304 Not Modified"), field("ETag", "\"abc\"")]
    );
    let head = head_for_block(&fields);
    assert_eq!(head.status, 304);
    assert_eq!(head.fields, vec![field("ETag", "\"abc\"")]);
}

#[test]
fn status_only_block_yields_empty_header_list() {
    let (fields, _) = parse_header_block(b"Status: 500 Internal Server Error\r\n\r\n").unwrap();
    let head = head_for_block(&fields);
    assert_eq!(head.status, 500);
    assert!(head.fields.is_empty());
}

#[test]
fn immediate_blank_line_means_empty_block() {
    let input = b"\r\nrest";
    let (fields, consumed) = parse_header_block(input).unwrap();
    assert!(fields.is_empty());
    assert_eq!(&input[consumed..], b"rest");
    assert_eq!(head_for_block(&fields).status, 200);
}

#[test]
fn every_fatal_failure_still_yields_a_response() {
    for failure in [
        CgiFailure::Spawn,
        CgiFailure::UpstreamWrite,
        CgiFailure::TruncatedHeader,
        CgiFailure::UpstreamRead,
    ] {
        let head = head_for_outcome(Err(failure));
        assert_eq!(head.status, 502);
        assert!(head.fields.is_empty());
    }
    let (fields, _) = parse_header_block(b"Status: 301 Moved\r\n\r\n").unwrap();
    let head = head_for_outcome(Ok(&fields));
    assert_eq!(head.status, 301);
}
