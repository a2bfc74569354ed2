use rebuilderd::freebsd::packagesite::{
    find_packagesite, package_lines, packagesite, split_lines, SiteError, Walk,
};

fn tarball(files: &[(&str, &[u8])]) -> Vec<u8> {
    let mut builder = tar::Builder::new(Vec::new());
    for (path, data) in files {
        let mut header = tar::Header::new_gnu();
        header.set_size(data.len() as u64);
        header.set_mode(0o644);
        header.set_cksum();
        builder.append_data(&mut header, path, *data).unwrap();
    }
    builder.into_inner().unwrap()
}

fn compressed(bytes: &[u8]) -> Vec<u8> {
    zstd::stream::encode_all(bytes, 3).unwrap()
}

fn archive(files: &[(&str, &[u8])]) -> Vec<u8> {
    compressed(&tarball(files))
}

#[test]
fn packagesite_is_found() {
    let bytes = archive(&[
        ("packagesite.yaml.sig", b"signature"),
        ("packagesite.yaml", b"{}\n"),
        ("packagesite.yaml", b"second"),
    ]);
    assert_eq!(packagesite(&bytes), Ok(Some(b"{}\n".to_vec())));
    let empty = archive(&[("packagesite.yaml", b"")]);
    assert_eq!(packagesite(&empty), Ok(Some(Vec::new())));
}

#[test]
fn archive_may_have_no_packagesite() {
    assert_eq!(packagesite(&archive(&[])), Ok(None));
    assert_eq!(packagesite(&archive(&[("data", b"x"), ("dir/packagesite.yaml", b"x")])), Ok(None));
}

#[test]
fn damaged_archive_cannot_be_read() {
    assert_eq!(packagesite(b"not compressed"), Err(SiteError::Archive));
    assert_eq!(packagesite(&compressed(&[7; 700])), Err(SiteError::Archive));
    let whole = archive(&[("data", &[1; 4000])]);
    assert_eq!(packagesite(&whole[..whole.len() / 2]), Err(SiteError::Archive));
}

#[test]
fn damage_after_the_packagesite_does_no_harm() {
    let mut bytes = tarball(&[("packagesite.yaml", b"{}\n"), ("data", b"x")]);
    bytes.truncate(1024);
    bytes.extend_from_slice(&[7; 512]);
    assert_eq!(packagesite(&compressed(&bytes)), Ok(Some(b"{}\n".to_vec())));
    let mut before = tarball(&[("data", b"x"), ("packagesite.yaml", b"{}\n")]);
    before[1024 + 300] ^= 0xff;
    assert_eq!(packagesite(&compressed(&before)), Err(SiteError::Archive));
}

#[test]
fn damage_in_the_packagesite_is_noticed() {
    let noise: Vec<u8> = (0..40000u32).map(|i| (i.wrapping_mul(2654435761) >> 13) as u8).collect();
    let bytes = archive(&[("packagesite.yaml", &noise)]);
    assert_eq!(packagesite(&bytes), Ok(Some(noise)));
    assert_eq!(packagesite(&bytes[..bytes.len() - 2000]), Err(SiteError::Archive));
}

#[test]
fn nothing_behind_the_packagesite_is_looked_at() {
    // The header of a sparse file that declares more than any archive can hold.
    let mut header = tar::Header::new_gnu();
    header.set_entry_type(tar::EntryType::GNUSparse);
    header.as_gnu_mut().unwrap().isextended = [1];
    header.set_size(u64::MAX - 1023);
    header.set_mode(0o644);
    header.set_cksum();
    let mut bytes = tarball(&[("packagesite.yaml", b"{}\n")]);
    bytes.truncate(1024);
    bytes.extend_from_slice(header.as_bytes());
    bytes.extend_from_slice(&[0; 2048]);
    assert_eq!(packagesite(&compressed(&bytes)), Ok(Some(b"{}\n".to_vec())));
}

#[test]
fn walk_goes_on_to_the_packagesite() {
    assert_eq!(find_packagesite(&Ok(Some(b"packagesite.yaml".to_vec()))), Walk::Packagesite);
    assert_eq!(find_packagesite(&Ok(Some(b"packagesite.yaml.sig".to_vec()))), Walk::Other);
    assert_eq!(find_packagesite(&Ok(Some(Vec::new()))), Walk::Other);
    assert_eq!(find_packagesite(&Ok(None)), Walk::End);
    assert_eq!(find_packagesite(&Err(())), Walk::Damage);
}

#[test]
fn lines_agree_with_std() {
    for text in ["", "\n", "a", "a\n", "a\r\n", "a\r", "\r\n\r\nb", "a\n\nb\r\r\nc", "\r", "x\ny\nz"] {
        let expected: Vec<Vec<u8>> = std::io::BufRead::lines(text.as_bytes())
            .map(|line| line.unwrap().into_bytes())
            .collect();
        assert_eq!(split_lines(&text.as_bytes().to_vec()), expected, "{text:?}");
    }
}

#[test]
fn blank_lines_are_left_out() {
    let lines = package_lines(&"{\"a\":1}\r\n\n \t\u{3000}\nh\u{e9}\n\nlast".as_bytes().to_vec());
    assert_eq!(lines, Ok(vec!["{\"a\":1}".to_string(), "h\u{e9}".to_string(), "last".to_string()]));
    assert_eq!(package_lines(&Vec::new()), Ok(Vec::new()));
}

#[test]
fn lines_have_to_be_text() {
    assert_eq!(package_lines(&b"good\n\xff\xfe\ngood".to_vec()), Err(SiteError::NotText));
    assert_eq!(package_lines(&b"\xc3".to_vec()), Err(SiteError::NotText));
}
