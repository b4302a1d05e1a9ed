use spark_core::linecomm::Framer;

fn feed_all(f: &mut Framer, bytes: &[u8]) -> Vec<Vec<u8>> {
    let mut lines = Vec::new();
    for &b in bytes {
        if let Some(l) = f.feed(b) {
            lines.push(l.to_vec());
        }
    }
    lines
}

#[test]
fn framer_splits_lines() {
    let mut f = Framer::new();
    assert_eq!(feed_all(&mut f, b"G0 X1\n?pos\n"), vec![b"G0 X1".to_vec(), b"?pos".to_vec()]);
}

#[test]
fn framer_drops_cr_and_empty_lines() {
    let mut f = Framer::new();
    assert_eq!(feed_all(&mut f, b"\r\n\n get\r\n"), vec![b" get".to_vec()]);
}

#[test]
fn framer_backspace_edits_the_line() {
    let mut f = Framer::new();
    assert_eq!(feed_all(&mut f, b"gex\x08t\n"), vec![b"get".to_vec()]);
    assert_eq!(feed_all(&mut f, b"\x7f\x7fM8\n"), vec![b"M8".to_vec()]);
}

#[test]
fn framer_drops_overlong_line() {
    let mut f = Framer::new();
    let mut long = vec![b'a'; 129];
    long.push(b'\n');
    assert!(feed_all(&mut f, &long).is_empty());
    // the next line is intact
    assert_eq!(feed_all(&mut f, b"M9\n"), vec![b"M9".to_vec()]);
    // 128 bytes still fit
    let mut max = vec![b'b'; 128];
    max.push(b'\n');
    assert_eq!(feed_all(&mut f, &max), vec![vec![b'b'; 128]]);
}

#[test]
fn framer_line_len_tracks_building_line() {
    let mut f = Framer::new();
    assert_eq!(f.line_len(), 0);
    feed_all(&mut f, b"ab");
    assert_eq!(f.line_len(), 2);
    feed_all(&mut f, b"\n");
    assert_eq!(f.line_len(), 0);
    let long = vec![b'c'; 130];
    feed_all(&mut f, &long);
    assert_eq!(f.line_len(), 0);
}
