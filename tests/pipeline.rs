use crossbeam_channel::unbounded;
use crossbeam_queue::SegQueue;
use sensor_pipeline::{
    acquire_next, acquire_stage, convert_message, report_message, source_from_samples,
    ConversionError, Disconnected, Envelope,
};

fn sample_a() -> Vec<u32> {
    vec![
        1, 0, 1, 1, 0, 0, 1, 0, // x: 178
        0, 0, 0, 0, 1, 0, 1, 1, // y: 11
        1, 1, 1, 1, 0, 0, 0, 1, // z: 241
        1, 1, 1, 0, 1, 0, 0, 0, // unused
    ]
}

fn sample_b() -> Vec<u32> {
    vec![
        0, 1, 0, 1, 1, 0, 1, 0, // x: 90
        1, 1, 0, 1, 0, 1, 0, 0, // y: 212
        0, 0, 1, 0, 1, 1, 1, 1, // z: 47
        1, 0, 1, 0, 0, 1, 1, 0, // unused
    ]
}

/// Runs the three stages one after the other over unbounded channels and
/// returns what stage 3 reported and the error that stopped stage 2, if any.
fn run_stages(mut source: SegQueue<Vec<u32>>) -> (Vec<(u32, u32, u32)>, Option<ConversionError>) {
    let (s1, r1) = unbounded();
    let (s2, r2) = unbounded();
    acquire_stage(&mut source, &s1).unwrap();
    drop(s1);
    let mut failure = None;
    while let Ok(msg) = r1.recv() {
        match convert_message(msg) {
            Ok(out) => {
                let end = out.is_end_of_stream();
                s2.send(out).unwrap();
                if end {
                    break;
                }
            }
            Err(e) => {
                failure = Some(e);
                break;
            }
        }
    }
    drop(s2);
    let mut reports = Vec::new();
    while let Ok(msg) = r2.recv() {
        match report_message(msg) {
            Some(t) => reports.push(t),
            None => break,
        }
    }
    (reports, failure)
}

#[test]
fn acquire_next_drains_in_order_then_signals_end() {
    let mut source = source_from_samples(&[sample_a(), vec![1, 2], sample_b()]);
    assert_eq!(acquire_next(&mut source), Envelope::Present(sample_a()));
    assert_eq!(acquire_next(&mut source), Envelope::Present(vec![1, 2]));
    assert_eq!(acquire_next(&mut source), Envelope::Present(sample_b()));
    assert_eq!(acquire_next(&mut source), Envelope::EndOfStream);
    assert_eq!(acquire_next(&mut source), Envelope::EndOfStream);
}

#[test]
fn convert_message_decodes_and_passes_sentinel() {
    assert_eq!(
        convert_message(Envelope::Present(sample_a())),
        Ok(Envelope::Present((178, 11, 241)))
    );
    assert_eq!(
        convert_message(Envelope::Present(sample_b())),
        Ok(Envelope::Present((90, 212, 47)))
    );
    assert_eq!(convert_message(Envelope::EndOfStream), Ok(Envelope::EndOfStream));
    assert_eq!(
        convert_message(Envelope::Present(vec![0, 1, 2, 3])),
        Err(ConversionError::InsufficientBits { needed: 24 })
    );
    let mut bad = sample_a();
    bad[9] = 2;
    assert_eq!(
        convert_message(Envelope::Present(bad)),
        Err(ConversionError::InvalidBitValue)
    );
}

#[test]
fn report_message_stops_on_sentinel() {
    assert_eq!(report_message(Envelope::Present((1, 2, 3))), Some((1, 2, 3)));
    assert_eq!(report_message(Envelope::EndOfStream), None);
    assert!(Envelope::<u32>::EndOfStream.is_end_of_stream());
    assert!(!Envelope::Present(0u32).is_end_of_stream());
}

#[test]
fn pipeline_reports_each_sample_in_order() {
    let source = source_from_samples(&[sample_a(), sample_b(), sample_a()]);
    let (reports, failure) = run_stages(source);
    assert_eq!(failure, None);
    assert_eq!(reports, vec![(178, 11, 241), (90, 212, 47), (178, 11, 241)]);
}

#[test]
fn pipeline_large_batch() {
    let samples: Vec<Vec<u32>> = (0..1000).map(|_| sample_a()).collect();
    let (reports, failure) = run_stages(source_from_samples(&samples));
    assert_eq!(failure, None);
    assert_eq!(reports.len(), 1000);
    assert!(reports.iter().all(|t| *t == (178, 11, 241)));
}

#[test]
fn pipeline_empty_source_reports_nothing() {
    let (reports, failure) = run_stages(SegQueue::new());
    assert_eq!(failure, None);
    assert!(reports.is_empty());
    let (reports, failure) = run_stages(source_from_samples(&[]));
    assert_eq!(failure, None);
    assert!(reports.is_empty());
}

#[test]
fn pipeline_stops_at_invalid_sample() {
    let source = source_from_samples(&[sample_a(), sample_b(), vec![], sample_a()]);
    let (reports, failure) = run_stages(source);
    assert_eq!(failure, Some(ConversionError::InsufficientBits { needed: 24 }));
    assert_eq!(reports, vec![(178, 11, 241), (90, 212, 47)]);

    let source = source_from_samples(&[vec![0, 1, 2, 3], sample_a()]);
    let (reports, failure) = run_stages(source);
    assert_eq!(failure, Some(ConversionError::InsufficientBits { needed: 24 }));
    assert!(reports.is_empty());
}

#[test]
fn source_from_samples_keeps_order() {
    let source = source_from_samples(&[vec![3], vec![1], vec![2]]);
    assert_eq!(source.len(), 3);
    assert_eq!(source.pop(), Some(vec![3]));
    assert_eq!(source.pop(), Some(vec![1]));
    assert_eq!(source.pop(), Some(vec![2]));
    assert_eq!(source.pop(), None);
}

#[test]
fn acquire_stage_sends_every_sample_then_sentinel() {
    let mut source = source_from_samples(&[vec![1], vec![2, 3]]);
    let (tx, rx) = unbounded();
    assert_eq!(acquire_stage(&mut source, &tx), Ok(()));
    assert!(source.is_empty());
    assert_eq!(rx.try_recv(), Ok(Envelope::Present(vec![1])));
    assert_eq!(rx.try_recv(), Ok(Envelope::Present(vec![2, 3])));
    assert_eq!(rx.try_recv(), Ok(Envelope::EndOfStream));
    assert!(rx.try_recv().is_err());
}

#[test]
fn acquire_stage_fails_without_receiver() {
    let mut source = source_from_samples(&[vec![1], vec![2]]);
    let (tx, rx) = unbounded::<Envelope<Vec<u32>>>();
    drop(rx);
    assert_eq!(acquire_stage(&mut source, &tx), Err(Disconnected));
    // The first sample was taken off before the send failed.
    assert_eq!(source.len(), 1);
    assert_eq!(source.pop(), Some(vec![2]));
}
