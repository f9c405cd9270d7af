use htms::render::{render_chunks, response, response_chunk, TaskResult};
use htms::stream::HtmlStream;

const TEMPLATE: &[u8; 27] = b"<html>template only</html>\n";
const FINAL_CHUNK: &[u8; 21] = b"<!-- final chunk -->\n";

const FIRST_TASK_OUTPUT: &str = "first task done";
const SECOND_TASK_OUTPUT: &str = "second task done";

fn two_results() -> Vec<TaskResult> {
    vec![
        TaskResult {
            id: "first_task".to_string(),
            html: FIRST_TASK_OUTPUT.to_string(),
        },
        TaskResult {
            id: "second_task".to_string(),
            html: SECOND_TASK_OUTPUT.to_string(),
        },
    ]
}

#[test]
fn render_template_only_without_final_chunk() {
    let chunks = render_chunks(TEMPLATE.to_vec(), &Vec::new(), None);

    assert_eq!(chunks.len(), 1);
    assert_eq!(chunks[0], TEMPLATE.to_vec());
}

#[test]
fn render_template_only_with_final_chunk() {
    let chunks = render_chunks(TEMPLATE.to_vec(), &Vec::new(), Some(FINAL_CHUNK.to_vec()));

    assert_eq!(chunks.len(), 2);
    assert_eq!(chunks[0], TEMPLATE.to_vec());
    assert_eq!(chunks[1], FINAL_CHUNK.to_vec());
}

#[test]
fn render_tasks_without_final_chunk() {
    let chunks = render_chunks(TEMPLATE.to_vec(), &two_results(), None);
    let responses: Vec<Vec<u8>> = chunks[1..chunks.len()].to_vec();
    let expected_responses = [
        response_chunk("first_task", FIRST_TASK_OUTPUT),
        response_chunk("second_task", SECOND_TASK_OUTPUT),
    ];

    assert_eq!(chunks.len(), 3);
    assert_eq!(responses.len(), 2);
    assert_eq!(chunks[0], TEMPLATE.to_vec());
    assert!(expected_responses.iter().all(|e| responses.contains(e)));
}

#[test]
fn render_tasks_with_final_chunk() {
    let chunks = render_chunks(TEMPLATE.to_vec(), &two_results(), Some(FINAL_CHUNK.to_vec()));
    let responses: Vec<Vec<u8>> = chunks[1..chunks.len() - 1].to_vec();
    let expected_responses = [
        response_chunk("first_task", FIRST_TASK_OUTPUT),
        response_chunk("second_task", SECOND_TASK_OUTPUT),
    ];

    assert_eq!(chunks.len(), 4);
    assert_eq!(responses.len(), 2);
    assert_eq!(chunks[0], TEMPLATE.to_vec());
    assert!(expected_responses.iter().all(|e| responses.contains(e)));
    assert_eq!(chunks[chunks.len() - 1], FINAL_CHUNK.to_vec());
}

#[test]
fn response_returns_expected_format() {
    let bytes = response_chunk("identifier", "<h1>html payload</h1>");
    let expected =
        b"<htms-chunk target=\"identifier\"><h1>html payload</h1></htms-chunk>\n".to_vec();

    assert_eq!(bytes, expected);
    assert_eq!(
        response("identifier", "<h1>html payload</h1>"),
        "<htms-chunk target=\"identifier\"><h1>html payload</h1></htms-chunk>\n"
    );
}

#[test]
fn empty_template_still_yields_one_chunk() {
    let chunks = render_chunks(Vec::new(), &Vec::new(), None);

    assert_eq!(chunks.len(), 1);
    assert!(chunks[0].is_empty());
}

#[test]
fn html_stream_wraps_and_unwraps_its_source() {
    let chunks = vec![b"Hello".to_vec(), b"World".to_vec()];
    let stream = HtmlStream::new(chunks.clone());

    assert_eq!(stream.into_inner(), chunks);
}
