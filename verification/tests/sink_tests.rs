use spatialbench::envelope::Envelope;
use spatialbench::sink::{
    envelope_line_bytes, parse_envelope_line, parse_i64_field, parse_tier_file, parse_u64_digits,
    series_file_contents, size_record_bytes, tier_file_contents,
};

#[test]
fn series_file_basic() {
    let samples: Vec<u64> = vec![0, 42, 1234];
    let bytes = series_file_contents(&samples);
    assert_eq!(bytes, b"0\n42\n1234\n".to_vec());
}

#[test]
fn series_file_empty() {
    let samples: Vec<u64> = Vec::new();
    let bytes = series_file_contents(&samples);
    assert!(bytes.is_empty());
}

#[test]
fn series_file_u64_max() {
    let samples: Vec<u64> = vec![u64::MAX];
    let bytes = series_file_contents(&samples);
    assert_eq!(bytes, b"18446744073709551615\n".to_vec());
}

#[test]
fn envelope_line_mixed_signs() {
    let env = Envelope { minx: -5, maxx: 10, miny: -2, maxy: 7 };
    assert_eq!(envelope_line_bytes(&env), b"-5,10,-2,7".to_vec());
}

#[test]
fn tier_file_two_lines() {
    let envs = vec![
        Envelope { minx: 0, maxx: 1, miny: 0, maxy: 1 },
        Envelope { minx: -1, maxx: 2, miny: -3, maxy: 4 },
    ];
    assert_eq!(tier_file_contents(&envs), b"0,1,0,1\n-1,2,-3,4\n".to_vec());
}

#[test]
fn size_record_format() {
    let name = b"bench_build".to_vec();
    assert_eq!(size_record_bytes(&name, 4096), b"bench_build: 4096\n".to_vec());
}

#[test]
fn parse_round_trip() {
    let env = Envelope {
        minx: i64::MIN,
        maxx: i64::MAX,
        miny: -123456789,
        maxy: 0,
    };
    let line = envelope_line_bytes(&env);
    assert_eq!(parse_envelope_line(&line), Some(env));
}

#[test]
fn parse_basic_line() {
    let parsed = parse_envelope_line(b"-5,10,-2,7").unwrap();
    assert_eq!(parsed, Envelope { minx: -5, maxx: 10, miny: -2, maxy: 7 });
}

#[test]
fn parse_leading_zeros() {
    let parsed = parse_envelope_line(b"007,8,9,10").unwrap();
    assert_eq!(parsed.minx, 7);
}

#[test]
fn parse_rejects_short_line() {
    assert_eq!(parse_envelope_line(b"1,2,3"), None);
}

#[test]
fn parse_rejects_extra_field() {
    assert_eq!(parse_envelope_line(b"1,2,3,4,5"), None);
}

#[test]
fn parse_rejects_empty_field() {
    assert_eq!(parse_envelope_line(b"1,,3,4"), None);
}

#[test]
fn parse_rejects_garbage() {
    assert_eq!(parse_envelope_line(b"a,b,c,d"), None);
}

#[test]
fn parse_rejects_out_of_range() {
    assert_eq!(parse_envelope_line(b"9223372036854775808,0,0,0"), None);
    assert_eq!(parse_envelope_line(b"-9223372036854775809,0,0,0"), None);
}

#[test]
fn tier_file_round_trip() {
    let envs = vec![
        Envelope { minx: 0, maxx: 1, miny: 0, maxy: 1 },
        Envelope { minx: -7, maxx: 7, miny: -7, maxy: 7 },
        Envelope { minx: i64::MIN, maxx: i64::MAX, miny: 0, maxy: 0 },
    ];
    let bytes = tier_file_contents(&envs);
    assert_eq!(parse_tier_file(&bytes), Some(envs));
}

#[test]
fn tier_file_empty() {
    assert_eq!(parse_tier_file(b""), Some(Vec::new()));
}

#[test]
fn tier_file_rejects_unterminated_line() {
    assert_eq!(parse_tier_file(b"1,2,3,4"), None);
    assert_eq!(parse_tier_file(b"1,2,3,4\n5,6,7,8"), None);
}

#[test]
fn tier_file_rejects_blank_line() {
    assert_eq!(parse_tier_file(b"1,2,3,4\n\n"), None);
}

#[test]
fn parse_u64_overflow() {
    let digits = b"18446744073709551616";
    assert_eq!(parse_u64_digits(digits, 0, digits.len()), None);
    let digits = b"18446744073709551615";
    assert_eq!(parse_u64_digits(digits, 0, digits.len()), Some(u64::MAX));
}

#[test]
fn parse_i64_extremes() {
    let neg = b"-9223372036854775808";
    assert_eq!(parse_i64_field(neg, 0, neg.len()), Some(i64::MIN));
    let pos = b"9223372036854775807";
    assert_eq!(parse_i64_field(pos, 0, pos.len()), Some(i64::MAX));
    assert_eq!(parse_i64_field(b"-", 0, 1), None);
}
