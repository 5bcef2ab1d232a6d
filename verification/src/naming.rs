//! File names for converted images: the capture time as text, and numbered
//! variants of it until one is free.

use crate::digits::{
    decimal, lemma_decimal_injective, lemma_decimal_value, push_decimal, two_digits, zero_padded,
};
use crate::timestamp::{CaptureTimestamp, WallClock};
use chrono::NaiveDate;
use vstd::prelude::*;
use vstd::string::*;

verus! {

/// The largest number that is tried as a suffix before giving up.
pub const MAX_SUFFIX: u32 = 10_000;

/// The strftime pattern of the name of a converted image, without its
/// extension.
pub open spec fn stamp_pattern() -> Seq<char> {
    "%Y年%m月%d日 %H-%M-%S"@
}

/// A year as chrono writes it under `%Y`: four digits for the years 0 to
/// 9999, otherwise a sign and at least four digits.
pub open spec fn year_text(year: int) -> Seq<char> {
    if 0 <= year <= 9999 {
        zero_padded(year as nat, 4)
    } else if year > 9999 {
        seq!['+'] + decimal(year as nat)
    } else {
        seq!['-'] + zero_padded((-year) as nat, 4)
    }
}

/// The name that a wall-clock reading gives, without extension:
/// `<year>年<month>月<day>日 <hour>-<minute>-<second>`, on the 24-hour clock
/// and padded with zeros. A leap second is written as second 60.
pub open spec fn stamp_text(w: WallClock) -> Seq<char> {
    year_text(w.year as int) + seq!['年'] + two_digits(w.month as nat) + seq!['月'] + two_digits(
        w.day as nat,
    ) + seq!['日', ' '] + two_digits(w.hour as nat) + seq!['-'] + two_digits(w.minute as nat)
        + seq!['-'] + two_digits((w.second + w.nano / 1_000_000_000) as nat)
}

/// Writes a wall-clock reading under a strftime pattern with chrono's
/// `NaiveDateTime::format`.
///
/// Trusted: under the pattern of converted names, chrono writes the year by
/// the rule of `year_text`, then month, day, hour, minute and second as two
/// digits each, with the literal characters of the pattern between them.
#[verifier::external_body]
fn format_reading(w: &WallClock, pattern: &str) -> (r: String)
    requires
        w.wf(),
        pattern@ == stamp_pattern(),
    ensures
        r@ == stamp_text(*w),
{
    let date = NaiveDate::from_ymd_opt(w.year, w.month, w.day).unwrap();
    let naive = date.and_hms_nano_opt(w.hour, w.minute, w.second, w.nano).unwrap();
    naive.format(pattern).to_string()
}

/// The name that a capture time gives to a converted image, without
/// extension and without suffix.
pub fn stamp_name(time: &CaptureTimestamp) -> (r: String)
    requires
        time.wf(),
    ensures
        r@ == stamp_text(time.local),
{
    format_reading(&time.local, "%Y年%m月%d日 %H-%M-%S")
}

/// The `counter`-th candidate for a name: the stem with the extension for
/// counter 0, and with the counter in parentheses before the extension for
/// every other.
pub open spec fn candidate_text(stem: Seq<char>, counter: nat) -> Seq<char> {
    if counter == 0 {
        stem + ".avif"@
    } else {
        stem + "("@ + decimal(counter) + ").avif"@
    }
}

/// Writes the `counter`-th candidate for a name.
pub fn candidate_name(stem: &str, counter: u32) -> (r: String)
    ensures
        r@ == candidate_text(stem@, counter as nat),
{
    let mut name = String::from_str(stem);
    if counter == 0 {
        name.append(".avif");
    } else {
        name.append("(");
        push_decimal(&mut name, counter);
        name.append(").avif");
    }
    name
}

/// The search for a free name: the stem, and the number of the candidate
/// that is being tried.
#[derive(Debug)]
pub struct NameAllocator {
    pub stem: String,
    pub counter: u32,
}

/// Where the search stands after one answer.
#[derive(Debug)]
pub enum Allocation {
    /// The candidate that was tried is free, and is the name.
    Chosen(String),
    /// The candidate is taken; the search goes on with the next.
    Retry(NameAllocator),
    /// The candidate is taken and was the last.
    Exhausted,
}

impl NameAllocator {
    /// The candidate that is being tried.
    pub open spec fn candidate_view(&self) -> Seq<char> {
        candidate_text(self.stem@, self.counter as nat)
    }

    /// Starts the search at the name without suffix.
    pub fn new(stem: String) -> (r: NameAllocator)
        ensures
            r.stem@ == stem@,
            r.counter == 0,
    {
        NameAllocator { stem, counter: 0 }
    }

    /// The candidate that is being tried.
    pub fn candidate(&self) -> (r: String)
        ensures
            r@ == self.candidate_view(),
    {
        candidate_name(self.stem.as_str(), self.counter)
    }

    /// Takes the answer to whether the candidate exists.
    ///
    /// A candidate that does not exist is chosen. After one that exists the
    /// search goes on with the next number, until number 10000 was tried.
    pub fn answer(self, exists: bool) -> (r: Allocation)
        ensures
            match r {
                Allocation::Chosen(name) => !exists && name@ == self.candidate_view(),
                Allocation::Retry(next) => exists && self.counter < MAX_SUFFIX && next.stem@
                    == self.stem@ && next.counter == self.counter + 1,
                Allocation::Exhausted => exists && self.counter >= MAX_SUFFIX,
            },
    {
        if !exists {
            Allocation::Chosen(self.candidate())
        } else if self.counter < MAX_SUFFIX {
            Allocation::Retry(NameAllocator { stem: self.stem, counter: self.counter + 1 })
        } else {
            Allocation::Exhausted
        }
    }
}

/// The name that the search arrives at in a directory that holds exactly
/// the names in `taken`, when it starts from candidate `counter`: the first
/// candidate from there on that is not taken, or `None` where all up to
/// number 10000 are.
pub open spec fn allocate_from(taken: Set<Seq<char>>, stem: Seq<char>, counter: nat) -> Option<
    Seq<char>,
>
    decreases MAX_SUFFIX + 1 - counter,
{
    if counter > MAX_SUFFIX {
        None
    } else if !taken.contains(candidate_text(stem, counter)) {
        Some(candidate_text(stem, counter))
    } else {
        allocate_from(taken, stem, counter + 1)
    }
}

/// The name that the search arrives at from its start.
pub open spec fn allocate(taken: Set<Seq<char>>, stem: Seq<char>) -> Option<Seq<char>> {
    allocate_from(taken, stem, 0)
}

/// The directory after `files` images with the same capture time were
/// converted one after the other, each under the name that the search gave
/// it in the directory that the ones before it left.
pub open spec fn directory_after(taken: Set<Seq<char>>, stem: Seq<char>, files: nat) -> Set<
    Seq<char>,
>
    decreases files,
{
    if files == 0 {
        taken
    } else {
        let before = directory_after(taken, stem, (files - 1) as nat);
        match allocate(before, stem) {
            Some(name) => before.insert(name),
            None => before,
        }
    }
}

/// Candidates with different numbers are different names.
pub proof fn lemma_candidates_distinct(stem: Seq<char>, j: nat, k: nat)
    requires
        j != k,
    ensures
        candidate_text(stem, j) != candidate_text(stem, k),
{
    reveal_strlit(".avif");
    reveal_strlit("(");
    reveal_strlit(").avif");
    let cj = candidate_text(stem, j);
    let ck = candidate_text(stem, k);
    let at = stem.len() as int;
    lemma_decimal_value(j);
    lemma_decimal_value(k);
    if j == 0 {
        assert(cj[at] == '.');
        assert(ck[at] == '(');
    } else if k == 0 {
        assert(cj[at] == '(');
        assert(ck[at] == '.');
    } else {
        let dj = decimal(j);
        let dk = decimal(k);
        if cj == ck {
            assert(cj.len() == stem.len() + 1 + dj.len() + 6);
            assert(ck.len() == stem.len() + 1 + dk.len() + 6);
            assert(cj.subrange(at + 1, at + 1 + dj.len()) =~= dj);
            assert(ck.subrange(at + 1, at + 1 + dk.len()) =~= dk);
            lemma_decimal_injective(j, k);
        }
    }
}

/// The search skips every candidate that is taken: where all candidates
/// from `counter` up to, but not including, `free` are taken and candidate
/// `free` is not, the search started at `counter` arrives at candidate
/// `free`.
pub proof fn lemma_allocate_skips_taken(
    taken: Set<Seq<char>>,
    stem: Seq<char>,
    counter: nat,
    free: nat,
)
    requires
        counter <= free <= MAX_SUFFIX,
        forall|j: nat| counter <= j < free ==> taken.contains(#[trigger] candidate_text(stem, j)),
        !taken.contains(candidate_text(stem, free)),
    ensures
        allocate_from(taken, stem, counter) == Some(candidate_text(stem, free)),
    decreases free - counter,
{
    if counter < free {
        assert(taken.contains(candidate_text(stem, counter)));
        lemma_allocate_skips_taken(taken, stem, counter + 1, free);
    }
}

/// The name that the search arrives at is not taken; it is a candidate,
/// and every candidate with a smaller number, from the start of the search
/// on, is taken. The search fails only where every candidate from its start
/// up to number 10000 is taken.
pub proof fn lemma_allocate_first_free(taken: Set<Seq<char>>, stem: Seq<char>, counter: nat)
    requires
        counter <= MAX_SUFFIX,
    ensures
        match allocate_from(taken, stem, counter) {
            Some(name) => !taken.contains(name) && exists|k: nat|
                counter <= k <= MAX_SUFFIX && name == #[trigger] candidate_text(stem, k) && forall|
                    j: nat,
                |
                    counter <= j < k ==> taken.contains(#[trigger] candidate_text(stem, j)),
            None => forall|j: nat|
                counter <= j <= MAX_SUFFIX ==> taken.contains(#[trigger] candidate_text(stem, j)),
        },
    decreases MAX_SUFFIX - counter,
{
    if !taken.contains(candidate_text(stem, counter)) {
        assert(allocate_from(taken, stem, counter) == Some(candidate_text(stem, counter)));
    } else if counter < MAX_SUFFIX {
        lemma_allocate_first_free(taken, stem, counter + 1);
        match allocate_from(taken, stem, counter + 1) {
            Some(name) => {
                let k = choose|k: nat|
                    counter + 1 <= k <= MAX_SUFFIX && name == #[trigger] candidate_text(stem, k)
                        && forall|j: nat|
                        counter + 1 <= j < k ==> taken.contains(#[trigger] candidate_text(stem, j));
                assert forall|j: nat| counter <= j < k implies taken.contains(
                    #[trigger] candidate_text(stem, j),
                ) by {
                    if j > counter {
                        assert(counter + 1 <= j);
                    }
                }
                assert(counter <= k <= MAX_SUFFIX && name == candidate_text(stem, k));
            },
            None => {
                assert forall|j: nat| counter <= j <= MAX_SUFFIX implies taken.contains(
                    #[trigger] candidate_text(stem, j),
                ) by {
                    if j > counter {
                        assert(counter + 1 <= j);
                    }
                }
            },
        }
    } else {
        assert(allocate_from(taken, stem, counter + 1) is None);
        assert forall|j: nat| counter <= j <= MAX_SUFFIX implies taken.contains(
            #[trigger] candidate_text(stem, j),
        ) by {
            assert(j == counter);
        }
    }
}

/// Images with the same capture time that are converted into one directory
/// one after the other get different names, in the order of the numbers:
/// where the directory holds none of the first `files` candidates at the
/// start, the image converted after `k` others gets candidate `k`, for every
/// `k` below `files`, and the directory then holds the candidates before it.
pub proof fn lemma_sequential_names(taken: Set<Seq<char>>, stem: Seq<char>, files: nat, k: nat)
    requires
        files <= MAX_SUFFIX + 1,
        k < files,
        forall|j: nat| j < files ==> !taken.contains(#[trigger] candidate_text(stem, j)),
    ensures
        allocate(directory_after(taken, stem, k), stem) == Some(candidate_text(stem, k)),
        forall|name: Seq<char>| #[trigger]
            directory_after(taken, stem, k).contains(name) <==> taken.contains(name) || exists|
                j: nat,
            |
                j < k && name == #[trigger] candidate_text(stem, j),
    decreases k,
{
    let dir = directory_after(taken, stem, k);
    if k > 0 {
        let before = directory_after(taken, stem, (k - 1) as nat);
        lemma_sequential_names(taken, stem, files, (k - 1) as nat);
        let last = candidate_text(stem, (k - 1) as nat);
        assert(dir == before.insert(last));
        assert forall|name: Seq<char>| #[trigger]
            dir.contains(name) <==> taken.contains(name) || exists|j: nat|
                j < k && name == #[trigger] candidate_text(stem, j) by {
            if dir.contains(name) {
                if name == last {
                    assert(k - 1 < k && name == candidate_text(stem, (k - 1) as nat));
                } else {
                    assert(before.contains(name));
                    if !taken.contains(name) {
                        let j = choose|j: nat| j < k - 1 && name == #[trigger] candidate_text(stem, j);
                        assert(j < k && name == candidate_text(stem, j));
                    }
                }
            }
            if exists|j: nat| j < k && name == #[trigger] candidate_text(stem, j) {
                let j = choose|j: nat| j < k && name == #[trigger] candidate_text(stem, j);
                if j < k - 1 {
                    assert(before.contains(name));
                }
            }
        }
    }
    assert forall|j: nat| 0 <= j < k implies dir.contains(#[trigger] candidate_text(stem, j)) by {
        assert(j < k && candidate_text(stem, j) == candidate_text(stem, j));
    }
    assert(!dir.contains(candidate_text(stem, k))) by {
        if dir.contains(candidate_text(stem, k)) {
            assert(!taken.contains(candidate_text(stem, k)));
            let j = choose|j: nat| j < k && candidate_text(stem, k) == #[trigger] candidate_text(stem, j);
            lemma_candidates_distinct(stem, j, k);
        }
    }
    lemma_allocate_skips_taken(dir, stem, 0, k);
}

/// No two of the images get the same name: the names given to two
/// different images of the sequence differ.
pub proof fn lemma_sequential_names_distinct(
    taken: Set<Seq<char>>,
    stem: Seq<char>,
    files: nat,
    j: nat,
    k: nat,
)
    requires
        files <= MAX_SUFFIX + 1,
        j < files,
        k < files,
        j != k,
        forall|i: nat| i < files ==> !taken.contains(#[trigger] candidate_text(stem, i)),
    ensures
        allocate(directory_after(taken, stem, j), stem) != allocate(
            directory_after(taken, stem, k),
            stem,
        ),
{
    lemma_sequential_names(taken, stem, files, j);
    lemma_sequential_names(taken, stem, files, k);
    lemma_candidates_distinct(stem, j, k);
}

} // verus!
