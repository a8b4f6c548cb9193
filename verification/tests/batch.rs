use simple_network::batch::{Batch, Limits, Writer, WriterAction};
use simple_network::framing::{read_frame, FrameError};

#[test]
fn batch_fills_up_by_frames() {
    let limits = Limits { max_frames: 2, max_bytes: 1000 };
    let mut batch = Batch::new();
    assert!(batch.is_empty());
    assert!(batch.has_room(limits));
    batch.push(vec![1]);
    assert!(batch.has_room(limits));
    batch.push(vec![2]);
    assert!(!batch.has_room(limits));
    assert!(!batch.is_empty());
}

#[test]
fn batch_fills_up_by_bytes() {
    let limits = Limits { max_frames: 100, max_bytes: 10 };
    let mut batch = Batch::new();
    batch.push(vec![0; 9]);
    assert!(batch.has_room(limits));
    batch.push(vec![0; 1]);
    assert!(!batch.has_room(limits));
}

#[test]
fn limits_of_both_programs() {
    assert_eq!(Limits::client(), Limits { max_frames: 16, max_bytes: 64 * 1024 });
    assert_eq!(Limits::relay(), Limits { max_frames: 64, max_bytes: 512 * 1024 });
}

#[test]
fn client_writer_takes_control_first() {
    let mut w = Writer::client();
    assert_eq!(w.action(), WriterAction::PollControl);
    w.step(Some(b"c1".to_vec()));
    assert_eq!(w.action(), WriterAction::PollControl);
    w.step(None);
    // filling up looks for control once more
    assert_eq!(w.action(), WriterAction::PollControl);
    w.step(None);
    assert_eq!(w.action(), WriterAction::PollData);
    w.step(Some(b"d1".to_vec()));
    assert_eq!(w.action(), WriterAction::PollControl);
    w.step(Some(b"c2".to_vec()));
    assert_eq!(w.action(), WriterAction::PollControl);
    w.step(None);
    assert_eq!(w.action(), WriterAction::PollData);
    w.step(None);
    assert_eq!(w.action(), WriterAction::Write);
    // nothing more is taken
    w.step(Some(b"late".to_vec()));
    assert_eq!(w.action(), WriterAction::Write);

    let out = w.encode().unwrap();
    let mut reader: &[u8] = &out;
    for f in [b"c1", b"d1", b"c2"] {
        assert_eq!(read_frame(&mut reader, 100).unwrap(), f.to_vec());
    }
    assert!(reader.is_empty());

    w.restart();
    assert_eq!(w.action(), WriterAction::PollControl);
    assert_eq!(w.encode().unwrap(), Vec::<u8>::new());
}

#[test]
fn client_writer_waits_and_stops() {
    let mut w = Writer::client();
    w.step(None);
    assert_eq!(w.action(), WriterAction::WaitAny);
    w.step(Some(b"first".to_vec()));
    assert_eq!(w.action(), WriterAction::PollControl);
    w.step(None);
    w.step(None);
    assert_eq!(w.action(), WriterAction::Write);
    w.restart();
    w.step(None);
    w.step(None);
    assert_eq!(w.action(), WriterAction::Stop);
    w.step(Some(b"late".to_vec()));
    assert_eq!(w.action(), WriterAction::Stop);
}

#[test]
fn client_writer_stops_at_sixteen_frames() {
    let mut w = Writer::client();
    for i in 0..16 {
        assert_eq!(w.action(), WriterAction::PollControl);
        w.step(Some(vec![i]));
    }
    assert_eq!(w.action(), WriterAction::Write);
}

#[test]
fn client_writer_stops_at_its_bytes() {
    let mut w = Writer::client();
    w.step(None);
    w.step(Some(vec![0; 65535]));
    w.step(None);
    assert_eq!(w.action(), WriterAction::PollData);
    w.step(Some(vec![0; 1]));
    assert_eq!(w.action(), WriterAction::Write);
    w.restart();
    w.step(None);
    w.step(Some(vec![0; 65536]));
    assert_eq!(w.action(), WriterAction::Write);
}

#[test]
fn relay_writer_drains_one_queue() {
    let mut w = Writer::relay();
    assert_eq!(w.action(), WriterAction::WaitAny);
    for i in 0..64 {
        w.step(Some(vec![i]));
    }
    assert_eq!(w.action(), WriterAction::Write);
    w.restart();
    assert_eq!(w.action(), WriterAction::WaitAny);
    w.step(Some(vec![1]));
    assert_eq!(w.action(), WriterAction::PollData);
    w.step(None);
    assert_eq!(w.action(), WriterAction::Write);
    w.restart();
    w.step(None);
    assert_eq!(w.action(), WriterAction::Stop);
}

#[test]
fn writer_passes_on_that_a_frame_is_empty() {
    let mut w = Writer::relay();
    w.step(Some(Vec::new()));
    assert_eq!(w.encode(), Err(FrameError::EncodeEmpty));
}

#[test]
fn stream_of_several_batches_holds_every_frame() {
    let given: Vec<Vec<u8>> = (1..=100u8).map(|i| vec![i; i as usize]).collect();
    let mut queue = given.clone().into_iter();
    let mut stream = Vec::new();
    let mut written = 0;
    let mut w = Writer::client();
    let mut turn = 0;
    loop {
        match w.action() {
            WriterAction::PollControl | WriterAction::PollData => {
                // now and then nothing waits
                turn += 1;
                w.step(if turn % 5 == 0 { None } else { queue.next() });
            }
            WriterAction::WaitAny => w.step(queue.next()),
            WriterAction::Write => {
                stream.extend(w.encode().unwrap());
                written += 1;
                w.restart();
            }
            WriterAction::Stop => break,
        }
    }
    assert!(written > 1);
    let mut reader: &[u8] = &stream;
    for f in &given {
        assert_eq!(&read_frame(&mut reader, 1000).unwrap(), f);
    }
    assert!(reader.is_empty());
}
