use disc_cipher::error::DiscError;
use disc_cipher::region::{extract_regions, is_encrypted, Region};

fn header(words: &[u32]) -> Vec<u8> {
    let mut h = vec![0u8; 4096];
    h[0..4].copy_from_slice(&((words.len() as u32 + 1) / 2).to_be_bytes());
    for (i, w) in words.iter().enumerate() {
        h[8 + 4 * i..12 + 4 * i].copy_from_slice(&w.to_be_bytes());
    }
    h
}

fn region(first: u64, last: u64, enc: bool) -> Region {
    Region { first_sector: first, last_sector: last, is_encrypted: enc }
}

#[test]
fn two_normal_regions_give_three_adjusted_regions() {
    let h = header(&[0, 9, 20, 29]);
    let regions = extract_regions(&h).unwrap();
    assert_eq!(
        regions,
        vec![region(0, 9, false), region(10, 19, true), region(20, 29, false)]
    );
}

#[test]
fn regions_alternate_and_are_contiguous() {
    let h = header(&[0, 0x100, 0x2000, 0x2100, 0x5000, 0x5fff]);
    let regions = extract_regions(&h).unwrap();
    assert_eq!(regions.len(), 5);
    for (i, r) in regions.iter().enumerate() {
        assert_eq!(r.is_encrypted, i % 2 == 1);
        assert!(r.first_sector <= r.last_sector);
    }
    for w in regions.windows(2) {
        assert_eq!(w[1].first_sector, w[0].last_sector + 1);
    }
    assert_eq!(regions[1], region(0x101, 0x1fff, true));
    assert_eq!(regions[4], region(0x5000, 0x5fff, false));
}

#[test]
fn single_normal_region_is_one_plaintext_region() {
    let mut h = vec![0u8; 4096];
    h[3] = 1;
    h[8..12].copy_from_slice(&5u32.to_be_bytes());
    h[12..16].copy_from_slice(&700u32.to_be_bytes());
    assert_eq!(extract_regions(&h).unwrap(), vec![region(5, 700, false)]);
}

#[test]
fn build_twice_gives_the_same_map() {
    let h = header(&[0, 9, 20, 29]);
    assert_eq!(extract_regions(&h), extract_regions(&h));
}

#[test]
fn short_header_is_malformed() {
    let h = header(&[0, 9, 20, 29]);
    assert_eq!(extract_regions(&h[..4095]), Err(DiscError::MalformedHeader));
    assert_eq!(extract_regions(&[]), Err(DiscError::MalformedHeader));
}

#[test]
fn zero_normal_regions_is_malformed() {
    let h = vec![0u8; 4096];
    assert_eq!(extract_regions(&h), Err(DiscError::MalformedHeader));
}

#[test]
fn region_count_past_header_is_malformed() {
    let mut h = vec![0u8; 4096];
    h[0..4].copy_from_slice(&512u32.to_be_bytes());
    assert_eq!(extract_regions(&h), Err(DiscError::MalformedHeader));
    h[0..4].copy_from_slice(&u32::MAX.to_be_bytes());
    assert_eq!(extract_regions(&h), Err(DiscError::MalformedHeader));
}

#[test]
fn largest_region_count_fits() {
    let mut words = Vec::new();
    for i in 0..1022u32 {
        words.push(i * 4);
    }
    let h = header(&words);
    let regions = extract_regions(&h).unwrap();
    assert_eq!(regions.len(), 1021);
    assert_eq!(regions[1020], region(4080, 4084, false));
}

#[test]
fn empty_encrypted_region_is_malformed() {
    let h = header(&[0, 9, 10, 29]);
    assert_eq!(extract_regions(&h), Err(DiscError::MalformedHeader));
}

#[test]
fn reversed_plaintext_region_is_malformed() {
    let h = header(&[9, 0, 20, 29]);
    assert_eq!(extract_regions(&h), Err(DiscError::MalformedHeader));
}

#[test]
fn lookup_finds_each_region() {
    let regions = extract_regions(&header(&[0, 9, 20, 29])).unwrap();
    assert_eq!(is_encrypted(&regions, 0), Ok(false));
    assert_eq!(is_encrypted(&regions, 9), Ok(false));
    assert_eq!(is_encrypted(&regions, 10), Ok(true));
    assert_eq!(is_encrypted(&regions, 19), Ok(true));
    assert_eq!(is_encrypted(&regions, 20), Ok(false));
    assert_eq!(is_encrypted(&regions, 29), Ok(false));
}

#[test]
fn lookup_past_every_region_is_out_of_range() {
    let regions = extract_regions(&header(&[0, 9, 20, 29])).unwrap();
    assert_eq!(is_encrypted(&regions, 30), Err(DiscError::SectorOutOfRange));
    assert_eq!(is_encrypted(&regions, u64::MAX), Err(DiscError::SectorOutOfRange));
}

#[test]
fn lookup_in_empty_map_is_out_of_range() {
    assert_eq!(is_encrypted(&[], 0), Err(DiscError::SectorOutOfRange));
}
