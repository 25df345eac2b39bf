use established::substream_id::{SubstreamId, SubstreamIdInner, YamuxSubstreamId};

#[test]
fn min_value_is_first_single_stream_id() {
    let min = SubstreamId::min_value();
    assert_eq!(min, SubstreamId(SubstreamIdInner::SingleStream(YamuxSubstreamId(0))));
    assert!(min <= SubstreamId::single_stream(0));
    assert!(min <= SubstreamId::multi_stream(0));
    assert!(min.le(&SubstreamId::multi_stream(7)));
}

#[test]
fn max_value_is_last_multi_stream_id() {
    let max = SubstreamId::max_value();
    assert_eq!(max, SubstreamId(SubstreamIdInner::MultiStream(u32::MAX)));
    assert!(SubstreamId::single_stream(u32::MAX) <= max);
    assert!(SubstreamId::single_stream(u32::MAX).le(&max));
    assert!(!max.le(&SubstreamId::multi_stream(u32::MAX - 1)));
}

#[test]
fn single_stream_ids_come_before_multi_stream_ids() {
    let single = SubstreamId::single_stream(u32::MAX);
    let multi = SubstreamId::multi_stream(0);
    assert!(single < multi);
    assert!(single.le(&multi));
    assert!(!multi.le(&single));
    assert!(SubstreamId::single_stream(3).le(&SubstreamId::single_stream(5)));
    assert!(!SubstreamId::single_stream(5).le(&SubstreamId::single_stream(3)));
}

#[test]
fn yamux_id_bounds() {
    assert_eq!(YamuxSubstreamId::min_value(), YamuxSubstreamId(0));
    assert_eq!(YamuxSubstreamId::max_value(), YamuxSubstreamId(u32::MAX));
}
