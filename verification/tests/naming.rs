use avif_batch::digits::push_decimal;
use avif_batch::naming::{candidate_name, stamp_name, Allocation, NameAllocator, MAX_SUFFIX};
use avif_batch::timestamp::{CaptureTimestamp, WallClock};

fn at(year: i32, month: u32, day: u32, hour: u32, minute: u32, second: u32) -> CaptureTimestamp {
    CaptureTimestamp {
        local: WallClock { year, month, day, hour, minute, second, nano: 0 },
        offset_seconds: 0,
    }
}

#[test]
fn decimal_numerals() {
    let mut text = String::from("n=");
    push_decimal(&mut text, 0);
    assert_eq!(text, "n=0");
    let mut text = String::new();
    push_decimal(&mut text, 7);
    push_decimal(&mut text, 10);
    push_decimal(&mut text, 10_000);
    push_decimal(&mut text, u32::MAX);
    assert_eq!(text, "710100004294967295");
}

#[test]
fn stamp_of_an_afternoon() {
    assert_eq!(stamp_name(&at(2024, 3, 15, 14, 22, 10)), "2024年03月15日 14-22-10");
}

#[test]
fn stamp_pads_every_field() {
    assert_eq!(stamp_name(&at(2023, 1, 1, 0, 0, 0)), "2023年01月01日 00-00-00");
    assert_eq!(stamp_name(&at(987, 12, 31, 23, 59, 59)), "0987年12月31日 23-59-59");
    assert_eq!(stamp_name(&at(0, 2, 29, 1, 2, 3)), "0000年02月29日 01-02-03");
}

#[test]
fn stamp_signs_years_beyond_four_digits() {
    assert_eq!(stamp_name(&at(10_000, 1, 1, 0, 0, 0)), "+10000年01月01日 00-00-00");
    assert_eq!(stamp_name(&at(-1, 12, 31, 23, 0, 0)), "-0001年12月31日 23-00-00");
    assert_eq!(stamp_name(&at(-12_345, 6, 7, 8, 9, 10)), "-12345年06月07日 08-09-10");
}

#[test]
fn stamp_ignores_the_offset() {
    let mut time = at(2024, 3, 15, 14, 22, 10);
    time.offset_seconds = 8 * 3600;
    assert_eq!(stamp_name(&time), "2024年03月15日 14-22-10");
}

#[test]
fn stamp_writes_a_leap_second_as_sixty() {
    let mut time = at(2016, 12, 31, 23, 59, 59);
    time.local.nano = 1_500_000_000;
    assert_eq!(stamp_name(&time), "2016年12月31日 23-59-60");
}

#[test]
fn candidates_by_number() {
    let stem = "2023年01月01日 00-00-00";
    assert_eq!(candidate_name(stem, 0), "2023年01月01日 00-00-00.avif");
    assert_eq!(candidate_name(stem, 1), "2023年01月01日 00-00-00(1).avif");
    assert_eq!(candidate_name(stem, 2), "2023年01月01日 00-00-00(2).avif");
    assert_eq!(candidate_name(stem, 10), "2023年01月01日 00-00-00(10).avif");
    assert_eq!(candidate_name(stem, 10_000), "2023年01月01日 00-00-00(10000).avif");
    assert_eq!(candidate_name("", 0), ".avif");
}

#[test]
fn allocator_takes_the_first_free_name() {
    let allocator = NameAllocator::new(String::from("a"));
    assert_eq!(allocator.candidate(), "a.avif");
    match allocator.answer(false) {
        Allocation::Chosen(name) => assert_eq!(name, "a.avif"),
        other => panic!("{:?}", other),
    }
}

#[test]
fn allocator_counts_up_while_names_are_taken() {
    let mut allocator = NameAllocator::new(String::from("a"));
    let mut number: u32 = 1;
    while number <= 3 {
        allocator = match allocator.answer(true) {
            Allocation::Retry(next) => next,
            other => panic!("{:?}", other),
        };
        assert_eq!(allocator.counter, number);
        assert_eq!(allocator.candidate(), format!("a({}).avif", number));
        number += 1;
    }
    match allocator.answer(false) {
        Allocation::Chosen(name) => assert_eq!(name, "a(3).avif"),
        other => panic!("{:?}", other),
    }
}

#[test]
fn allocator_gives_up_after_ten_thousand_suffixes() {
    assert_eq!(MAX_SUFFIX, 10_000);
    let mut allocator = NameAllocator::new(String::from("a"));
    let mut probes: u32 = 0;
    loop {
        probes += 1;
        match allocator.answer(true) {
            Allocation::Retry(next) => allocator = next,
            Allocation::Exhausted => break,
            other => panic!("{:?}", other),
        }
    }
    assert_eq!(probes, 10_001);
}

#[test]
fn sequential_files_get_distinct_names_in_order() {
    let mut directory: Vec<String> = vec![String::from("unrelated.avif")];
    let mut given: Vec<String> = Vec::new();
    let mut file: u32 = 0;
    while file < 12 {
        let mut allocator = NameAllocator::new(String::from("t"));
        let name = loop {
            let exists = directory.contains(&allocator.candidate());
            match allocator.answer(exists) {
                Allocation::Chosen(name) => break name,
                Allocation::Retry(next) => allocator = next,
                Allocation::Exhausted => panic!("exhausted"),
            }
        };
        assert_eq!(name, candidate_name("t", file));
        assert!(!directory.contains(&name));
        directory.push(name.clone());
        given.push(name);
        file += 1;
    }
    assert_eq!(given[0], "t.avif");
    assert_eq!(given[1], "t(1).avif");
    assert_eq!(given[11], "t(11).avif");
}
