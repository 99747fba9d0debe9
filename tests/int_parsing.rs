use patpo::rules::IntRanges;
use rand::Rng;
use std::ops::RangeInclusive;

fn check(input: &str, ranges: &[RangeInclusive<i64>]) -> Result<(), String> {
    match IntRanges::parse(input) {
        Ok(int_ranges) => {
            let got: Vec<RangeInclusive<i64>> =
                int_ranges.ranges().iter().map(|&(a, b)| a..=b).collect();
            if int_ranges.text() != input {
                Err("text doesn't match".to_string())
            } else if got != ranges {
                Err("ranges don't match".to_string())
            } else {
                Ok(())
            }
        }
        Err(error) => Err(error.message()),
    }
}

fn ok(input: &str, ranges: &[RangeInclusive<i64>]) {
    match check(input, ranges) {
        Ok(()) => {}
        Err(err) => panic!("{err}"),
    }
}

fn err(input: &str) {
    assert!(check(input, &[]).is_err());
}

#[test]
fn empty() {
    err("");
}

#[test]
fn single_comma() {
    err(",");
}

#[test]
fn some_text() {
    err("sungoua9180_");
}

#[test]
fn single_number() {
    ok("100", &[100..=100]);
}

#[test]
fn single_number_with_text() {
    err("100nan");
}

#[test]
fn single_number_negative() {
    ok("-190583", &[-190583..=-190583]);
}

#[test]
fn single_number_zero() {
    ok("0", &[0..=0]);
}

#[test]
fn single_number_trailing_comma() {
    err("14391539,");
}

#[test]
fn single_number_negative_separated_minus() {
    err("- 1");
}

#[test]
fn single_number_with_spaces() {
    ok("   \t\t 10190309\t\t\t", &[10190309..=10190309]);
}

#[test]
fn single_range() {
    ok("-123..-0", &[-123..=0]);
}

#[test]
fn single_range_end_less_than_start() {
    err("123159..-9148");
}

#[test]
fn single_range_trailing_comma() {
    err("149..150,");
}

#[test]
fn single_range_half() {
    err("140..");
}

#[test]
fn single_range_other_half() {
    err("..149");
}

#[test]
fn single_range_with_spaces() {
    ok("  \t 149 \t\t..\t\t150                ", &[149..=150]);
}

#[test]
fn multi_number() {
    ok(
        " 194 , 99     ,-150,   11037    ",
        &[194..=194, 99..=99, -150..=-150, 11037..=11037],
    );
}

#[test]
fn multi_number_double_comma() {
    err("1,,2");
}

#[test]
fn multi_number_with_text() {
    err(" 194, 99, -150, 11037, what is this?");
}

#[test]
fn multi_ranges() {
    ok(
        "  -111111111 .. -1 ,-100..1000,1   ..   1,   -0..0",
        &[-111111111..=-1, -100..=1000, 1..=1, 0..=0],
    );
}

#[test]
fn multi_mix() {
    ok(
        " 99 , -111 .. -1 ,1   ..   1,   -0..0   ,-150    ",
        &[99..=99, -111..=-1, 1..=1, 0..=0, -150..=-150],
    );
}

#[test]
fn rules_proptest() {
    let mut rng = rand::thread_rng();

    let len: usize = rng.gen_range(1..100);
    let mut ranges = Vec::with_capacity(len);

    for _i in 0..len {
        let start: i64 = rng.gen();
        let end: i64 = rng.gen_range(start..=i64::MAX);

        ranges.push(start..=end);
    }

    let input = ranges
        .iter()
        .map(|range| {
            let start = range.start();
            let end = range.end();

            let sep = " ".repeat(rng.gen_range(0..10));

            format!("{sep}{start}{sep}..{sep}{end}{sep}")
        })
        .collect::<Vec<_>>()
        .join(",");

    ok(&input, &ranges);
}

#[test]
fn several_lines() {
    ok("1, 2..3\r\n-4\n", &[1..=1, 2..=3, -4..=-4]);
}

#[test]
fn empty_line_between() {
    err("1\n\n2");
}

#[test]
fn plus_sign_accepted() {
    ok("+7..+9", &[7..=9]);
}

#[test]
fn out_of_i64_rejected() {
    err("9223372036854775808");
    ok("9223372036854775807, -9223372036854775808", &[i64::MAX..=i64::MAX, i64::MIN..=i64::MIN]);
}
