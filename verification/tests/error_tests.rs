use groupic::error::CompositorError;

#[test]
fn error_descriptions() {
    assert_eq!(CompositorError::Io.describe(), "input or output failed");
    assert_eq!(CompositorError::Decode.describe(), "could not decode an avatar image");
    assert_eq!(CompositorError::FontLoad.describe(), "could not load the font");
    assert_eq!(
        CompositorError::HeaderOutOfBounds.describe(),
        "header text would leave the canvas"
    );
}

#[test]
fn error_kinds_are_distinct() {
    let kinds = [
        CompositorError::Io,
        CompositorError::Decode,
        CompositorError::FontLoad,
        CompositorError::HeaderOutOfBounds,
    ];
    for i in 0..kinds.len() {
        for j in 0..kinds.len() {
            assert_eq!(i == j, kinds[i] == kinds[j]);
        }
    }
}
