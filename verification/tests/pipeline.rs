use bytes::BytesMut;
use pantheon::janus::{Pipeline, Stage};
use std::fmt::Write;

/// ASCII uppercase in place.
struct Uppercase;
impl Stage for Uppercase {
    fn process(&mut self, data: &mut BytesMut) -> usize {
        for byte in &mut data[..] {
            *byte = byte.to_ascii_uppercase();
        }
        data.len()
    }
}

/// Reverses the bytes in place.
struct Reverse;
impl Stage for Reverse {
    fn process(&mut self, data: &mut BytesMut) -> usize {
        let len = data.len();
        for i in 0..len / 2 {
            data.swap(i, len - 1 - i);
        }
        len
    }
}

/// Keeps a fixed number of bytes.
struct KeepFirst(usize);
impl Stage for KeepFirst {
    fn process(&mut self, _data: &mut BytesMut) -> usize {
        self.0
    }
}

#[test]
fn test_pipeline() {
    let mut pipeline = Pipeline::new().add_stage(Uppercase).add_stage(Reverse);

    let mut buf = BytesMut::new();
    buf.write_str("hello world").unwrap();
    pipeline.run_on_buf(&mut buf);

    assert_eq!(buf, BytesMut::from("DLROW OLLEH"));
}

#[test]
fn a_stage_returning_a_shorter_length_cuts_the_data() {
    let mut pipeline = Pipeline::new().add_stage(KeepFirst(5)).add_stage(Uppercase);
    let mut buf = BytesMut::from("hello world");
    pipeline.run_on_buf(&mut buf);
    assert_eq!(buf, BytesMut::from("HELLO"));
}

#[test]
fn a_length_past_the_end_keeps_everything() {
    let mut pipeline = Pipeline::new().add_stage(KeepFirst(100)).add_stage(Reverse);
    let mut buf = BytesMut::from("abc");
    pipeline.run_on_buf(&mut buf);
    assert_eq!(buf, BytesMut::from("cba"));
}

#[test]
fn an_empty_pipeline_leaves_the_data() {
    let mut pipeline = Pipeline::default();
    let mut buf = BytesMut::from("same");
    pipeline.run_on_buf(&mut buf);
    assert_eq!(buf, BytesMut::from("same"));
}
