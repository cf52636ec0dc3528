use filemap::round_offset;
use filemap::err;
use filemap::FileMap;
use filemap::FileMapError;
use filemap::FileMapMut;
use filemap::PAST_END_CODE;

const PAGE: usize = 4096;

#[test]
fn zero_length_is_invalid() {
    assert_eq!(round_offset(0, 0, PAGE), Err(FileMapError::InvalidLength));
    assert_eq!(round_offset(12345, 0, PAGE), Err(FileMapError::InvalidLength));
    assert_eq!(round_offset(PAGE * 7, 0, 1), Err(FileMapError::InvalidLength));

    let file = vec![1u8, 2, 3];
    assert!(matches!(FileMap::new(&file, 0, 0, PAGE), Err(FileMapError::InvalidLength)));
    assert!(matches!(
        FileMapMut::new(&file, 2, 0, true, PAGE),
        Err(FileMapError::InvalidLength)
    ));
}

#[test]
fn alignment_formulas() {
    // padding = offset % page_size, aligned_offset = offset - padding,
    // aligned_length = length + padding
    assert_eq!(round_offset(10, 1014, PAGE), Ok((0, 10, 1024)));
    assert_eq!(round_offset(4106, 100, PAGE), Ok((4096, 10, 110)));
    assert_eq!(round_offset(0, 55, PAGE), Ok((0, 0, 55)));
    assert_eq!(round_offset(PAGE * 3, 1, PAGE), Ok((PAGE * 3, 0, 1)));
    assert_eq!(round_offset(999, 1, 1), Ok((999, 0, 1)));

    let (aligned_offset, padding, aligned_length) = round_offset(123456, 789, PAGE).unwrap();
    assert_eq!(aligned_offset % PAGE, 0);
    assert!(padding < PAGE);
    assert_eq!(aligned_offset + padding, 123456);
    assert_eq!(aligned_length, 789 + padding);
}

#[test]
fn err_wraps_code() {
    assert_eq!(err::<u8>(42), Err(FileMapError::OsError(42)));
    assert_eq!(err::<()>(-1), Err(FileMapError::OsError(-1)));
}

#[test]
fn whole_file_view() {
    let file: Vec<u8> = (0..100u8).collect();
    let map = FileMap::new(&file, 0, file.len(), PAGE).unwrap();
    assert_eq!(map.len(), 100);
    assert_eq!(map.as_slice(), &file[..]);
    assert_eq!(map.slice(0, 100), &file[..]);
}

#[test]
fn unaligned_offset_view() {
    let file: Vec<u8> = (0..200).map(|i| (i * 7 % 251) as u8).collect();
    let offset = 10;
    let n = 150;
    let map = FileMap::new(&file, offset, n, PAGE).unwrap();
    assert_eq!(map.len(), n);
    let s = map.as_slice();
    assert_eq!(s.len(), n);
    for k in 0..n {
        assert_eq!(s[k], file[offset + k]);
    }
    assert_eq!(map.slice(3, 9), &file[offset + 3..offset + 9]);
    assert_eq!(map.slice_from(140), &file[offset + 140..offset + n]);
    assert_eq!(map.slice_to(4), &file[offset..offset + 4]);
}

#[test]
fn past_end_is_os_error() {
    let file = vec![9u8; 64];
    assert!(matches!(
        FileMap::new(&file, 0, 65, PAGE),
        Err(FileMapError::OsError(c)) if c == PAST_END_CODE
    ));
    assert!(matches!(
        FileMap::new(&file, 64, 1, PAGE),
        Err(FileMapError::OsError(c)) if c == PAST_END_CODE
    ));
    assert!(matches!(
        FileMapMut::new(&file, 60, 5, false, PAGE),
        Err(FileMapError::OsError(c)) if c == PAST_END_CODE
    ));
    // the largest window that still fits succeeds
    assert!(FileMap::new(&file, 0, 64, PAGE).is_ok());
    assert!(FileMap::new(&file, 63, 1, PAGE).is_ok());
}

#[test]
fn shared_write_reaches_file() {
    let mut file = vec![0xabu8; 512];
    let mut map = FileMapMut::new(&file, 0, 512, true, PAGE).unwrap();
    map.write(5, 0x17);
    map.close(&mut file);
    for (i, b) in file.iter().enumerate() {
        if i == 5 {
            assert_eq!(*b, 0x17);
        } else {
            assert_eq!(*b, 0xab);
        }
    }
}

#[test]
fn private_write_stays_local() {
    let mut file = vec![0x55u8; 256];
    let mut map = FileMapMut::new(&file, 16, 100, false, PAGE).unwrap();
    map.write(0, 0x99);
    assert_eq!(map.as_slice()[0], 0x99);
    assert_eq!(map.slice_from(99), &[0x55]);
    assert_eq!(map.slice_to(1), &[0x99]);
    map.close(&mut file);
    assert_eq!(file, vec![0x55u8; 256]);
}

#[test]
fn shared_scenario_round_trip() {
    let len = 1024;
    let data = vec![0xabu8; len];
    let mut file = data.clone();

    {
        let mut map_w = FileMapMut::new(&file, 0, len, true, PAGE).unwrap();
        assert_eq!(map_w.as_slice(), &data[..]);
        let slice = map_w.as_slice_mut();
        slice[0] = 0xcd;
        slice[len - 1] = 0xef;
        map_w.close(&mut file);
    }

    {
        let map = FileMap::new(&file, 0, len, PAGE).unwrap();
        let slice = map.as_slice();
        assert_eq!(slice[0], 0xcd);
        assert_eq!(slice[len - 1], 0xef);
        assert_eq!(&slice[1..(len - 1)], &data[1..(len - 1)]);
    }

    {
        let offset = 10;
        let map = FileMap::new(&file, offset, len - offset, PAGE).unwrap();
        assert_eq!(map.len(), len - offset);
        let slice = map.as_slice();
        assert_eq!(slice.len(), len - offset);
        assert_eq!(slice[len - 1 - offset], 0xef);
        assert_eq!(&slice[1..(len - 1 - offset)], &data[(1 + offset)..(len - 1)]);
    }
}

#[test]
fn slice_mut_writes_through() {
    let mut file: Vec<u8> = (0..50u8).collect();
    let mut map = FileMapMut::new(&file, 3, 40, true, PAGE).unwrap();
    {
        let s = map.slice_mut(10, 14);
        assert_eq!(s.len(), 4);
        assert_eq!(s[0], 13); // logical 10 is file byte 3 + 10
        s[0] = 200;
        s[3] = 201;
    }
    assert_eq!(map.slice(10, 14), &[200, 14, 15, 201]);
    map.close(&mut file);
    assert_eq!(file[13], 200);
    assert_eq!(file[16], 201);
    assert_eq!(file[12], 12);
    assert_eq!(file[17], 17);
}

#[test]
fn as_slice_mut_covers_whole_window() {
    let file = vec![7u8; 30];
    let mut map = FileMapMut::new(&file, 11, 8, false, PAGE).unwrap();
    {
        let s = map.as_slice_mut();
        assert_eq!(s.len(), 8);
        assert_eq!(s, &[7u8; 8][..]);
        for b in s.iter_mut() {
            *b = 1;
        }
    }
    assert_eq!(map.len(), 8);
    assert_eq!(map.as_slice(), &[1u8; 8][..]);
}
