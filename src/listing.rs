//! The text of a listing: one record of seven lines per entry, in order.

use crate::clock::{in_local_range, is_local_text, local_time_text};
use crate::metadata::{listing_of, EntryMetadata, EntryProbe, ListError};
use crate::text::{
    attributes_text, bool_text, decimal_digits, digits_value, lemma_decimal_round_trip,
    push_attributes, push_bool, push_decimal,
};
use vstd::prelude::*;
use vstd::string::StringExecFns;

verus! {

/// The line that closes every record.
pub open spec fn separator() -> Seq<char> {
    "------------------"@
}

/// The lines of the record of the entry at position `index`, whose
/// modification time reads `time`. The position stands in for the name.
pub open spec fn record_lines(index: nat, m: EntryMetadata, time: Seq<char>) -> Seq<Seq<char>> {
    seq![
        "Entry at index "@ + decimal_digits(index),
        "1. Name of File: "@ + decimal_digits(index),
        "2. Is Directory: "@ + bool_text(m.is_dir),
        "3. File Size: "@ + decimal_digits(m.size as nat) + " bytes"@,
        "4. Modification Time: "@ + time,
        "5. Permissions: \""@ + attributes_text(m.attributes) + "\""@,
        separator(),
    ]
}

/// Lines joined into text, each followed by a newline.
pub open spec fn lines_text(lines: Seq<Seq<char>>) -> Seq<char>
    decreases lines.len(),
{
    if lines.len() == 0 {
        Seq::empty()
    } else {
        lines_text(lines.drop_last()) + lines.last() + "\n"@
    }
}

/// The lines of the listing of `entries`, the `k`-th of which was modified
/// at the time that reads `times[k]`.
pub open spec fn listing_lines(entries: Seq<EntryMetadata>, times: Seq<Seq<char>>) -> Seq<Seq<char>>
    decreases entries.len(),
{
    if entries.len() == 0 {
        Seq::empty()
    } else {
        let k = entries.len() - 1;
        listing_lines(entries.drop_last(), times) + record_lines(k as nat, entries[k], times[k])
    }
}

pub open spec fn listing_spec(entries: Seq<EntryMetadata>, times: Seq<Seq<char>>) -> Seq<char> {
    lines_text(listing_lines(entries, times))
}

pub open spec fn text_views(texts: Seq<String>) -> Seq<Seq<char>> {
    texts.map_values(|s: String| s@)
}

/// The instant of an entry's last modification; the Unix epoch where it is
/// not known.
pub open spec fn instant_of(m: EntryMetadata) -> int {
    match m.modified {
        Some(s) => s as int,
        None => 0,
    }
}

pub proof fn lemma_lines_text_append(a: Seq<Seq<char>>, b: Seq<Seq<char>>)
    ensures
        lines_text(a + b) == lines_text(a) + lines_text(b),
    decreases b.len(),
{
    if b.len() == 0 {
        assert(a + b =~= a);
        assert(lines_text(a) + Seq::<char>::empty() =~= lines_text(a));
    } else {
        lemma_lines_text_append(a, b.drop_last());
        assert((a + b).drop_last() =~= a + b.drop_last());
        assert((a + b).last() == b.last());
        assert(lines_text(a + b) =~= lines_text(a) + lines_text(b));
    }
}

proof fn lemma_record_text(index: nat, m: EntryMetadata, time: Seq<char>)
    ensures
        ({
            let l = record_lines(index, m, time);
            let nl = "\n"@;
            lines_text(l) == l[0] + nl + l[1] + nl + l[2] + nl + l[3] + nl + l[4] + nl + l[5] + nl
                + l[6] + nl
        }),
{
    let l = record_lines(index, m, time);
    assert(l.drop_last().drop_last().drop_last().drop_last().drop_last().drop_last().drop_last()
        =~= Seq::<Seq<char>>::empty());
    reveal_with_fuel(lines_text, 8);
    assert(lines_text(l) =~= l[0] + "\n"@ + l[1] + "\n"@ + l[2] + "\n"@ + l[3] + "\n"@ + l[4]
        + "\n"@ + l[5] + "\n"@ + l[6] + "\n"@);
}

/// Appends the record of the entry at position `index` to `out`.
pub fn push_record(out: &mut String, index: u64, m: &EntryMetadata, time: &str)
    ensures
        final(out)@ == old(out)@ + lines_text(record_lines(index as nat, *m, time@)),
{
    let ghost start = out@;
    out.append("Entry at index ");
    push_decimal(out, index);
    out.append("\n1. Name of File: ");
    push_decimal(out, index);
    out.append("\n2. Is Directory: ");
    push_bool(out, m.is_dir);
    out.append("\n3. File Size: ");
    push_decimal(out, m.size);
    out.append(" bytes\n4. Modification Time: ");
    out.append(time);
    out.append("\n5. Permissions: \"");
    push_attributes(out, m.attributes);
    out.append("\"\n------------------\n");
    proof {
        lemma_record_text(index as nat, *m, time@);
        reveal_strlit("\n");
        reveal_strlit("Entry at index ");
        reveal_strlit("\n1. Name of File: ");
        reveal_strlit("1. Name of File: ");
        reveal_strlit("\n2. Is Directory: ");
        reveal_strlit("2. Is Directory: ");
        reveal_strlit("\n3. File Size: ");
        reveal_strlit("3. File Size: ");
        reveal_strlit(" bytes\n4. Modification Time: ");
        reveal_strlit(" bytes");
        reveal_strlit("4. Modification Time: ");
        reveal_strlit("\n5. Permissions: \"");
        reveal_strlit("5. Permissions: \"");
        reveal_strlit("\"\n------------------\n");
        reveal_strlit("\"");
        reveal_strlit("------------------");
        assert(out@ =~= start + lines_text(record_lines(index as nat, *m, time@)));
    }
}

/// The text of the listing of `entries`, the `k`-th of which was modified at
/// the time that reads `times[k]`.
pub fn listing_text(entries: &Vec<EntryMetadata>, times: &Vec<String>) -> (r: String)
    requires
        times.len() == entries.len(),
    ensures
        r@ == listing_spec(entries@, text_views(times@)),
{
    let ghost tv = text_views(times@);
    let mut out = String::new();
    let mut i: usize = 0;
    while i < entries.len()
        invariant
            0 <= i <= entries.len(),
            times.len() == entries.len(),
            tv == text_views(times@),
            out@ == listing_spec(entries@.subrange(0, i as int), tv),
        decreases entries.len() - i,
    {
        push_record(&mut out, i as u64, &entries[i], times[i].as_str());
        proof {
            let prefix = entries@.subrange(0, i as int + 1);
            assert(prefix.drop_last() =~= entries@.subrange(0, i as int));
            assert(prefix[i as int] == entries@[i as int]);
            assert(tv[i as int] == times@[i as int]@);
            lemma_lines_text_append(
                listing_lines(entries@.subrange(0, i as int), tv),
                record_lines(i as nat, entries@[i as int], tv[i as int]),
            );
        }
        i = i + 1;
    }
    assert(entries@.subrange(0, entries@.len() as int) =~= entries@);
    out
}

/// The text of the listing of `entries`, each modification time written in
/// the local time zone; `None` only where a modification time lies beyond
/// the years that the calendar represents.
pub fn render_listing(entries: &Vec<EntryMetadata>) -> (r: Option<String>)
    ensures
        r matches Some(t) ==> exists|times: Seq<Seq<char>>|
            {
                &&& times.len() == entries@.len()
                &&& forall|k: int|
                    0 <= k < times.len() ==> is_local_text(instant_of(entries@[k]), #[trigger] times[k])
                &&& t@ == listing_spec(entries@, times)
            },
        entries@.len() == 0 ==> (r matches Some(t) && t@.len() == 0),
        (forall|k: int| 0 <= k < entries@.len() ==> in_local_range(instant_of(#[trigger] entries@[k])))
            ==> r is Some,
{
    let mut times: Vec<String> = Vec::new();
    let mut i: usize = 0;
    while i < entries.len()
        invariant
            0 <= i <= entries.len(),
            times.len() == i,
            forall|k: int|
                0 <= k < i ==> is_local_text(instant_of(entries@[k]), #[trigger] text_views(times@)[k]),
        decreases entries.len() - i,
    {
        let secs: i64 = match entries[i].modified {
            Some(s) => s,
            None => 0,
        };
        match local_time_text(secs) {
            None => {
                assert(secs as int == instant_of(entries@[i as int]));
                return None;
            },
            Some(t) => {
                let ghost before = times@;
                times.push(t);
                proof {
                    assert forall|k: int| 0 <= k < i + 1 implies is_local_text(
                        instant_of(entries@[k]),
                        #[trigger] text_views(times@)[k],
                    ) by {
                        if k < i {
                            assert(times@[k] == before[k]);
                            assert(text_views(before)[k] == before[k]@);
                        }
                    }
                }
            },
        }
        i = i + 1;
    }
    let out = listing_text(entries, &times);
    proof {
        let tv = text_views(times@);
        assert(tv.len() == entries@.len());
        if entries@.len() == 0 {
            assert(listing_lines(entries@, tv) =~= Seq::<Seq<char>>::empty());
        }
    }
    Some(out)
}

/// An empty directory lists as no entries, and no entries print as no text.
pub proof fn lemma_empty_directory_prints_nothing(times: Seq<Seq<char>>)
    ensures
        listing_of(Some(Seq::<EntryProbe>::empty())) == Ok::<Seq<EntryMetadata>, ListError>(Seq::empty()),
        listing_spec(Seq::empty(), times).len() == 0,
{
    assert(!crate::metadata::lacks_metadata(Seq::<EntryProbe>::empty()));
}

proof fn lemma_record_at(entries: Seq<EntryMetadata>, times: Seq<Seq<char>>, k: int)
    requires
        0 <= k < entries.len(),
    ensures
        listing_lines(entries, times).len() == 7 * entries.len(),
        listing_lines(entries, times).subrange(7 * k, 7 * k + 7) == record_lines(
            k as nat,
            entries[k],
            times[k],
        ),
    decreases entries.len(),
{
    let n = entries.len() - 1;
    let front = entries.drop_last();
    let prev = listing_lines(front, times);
    let all = listing_lines(entries, times);
    let rec = record_lines(n as nat, entries[n], times[n]);
    assert(all == prev + rec);
    if n == 0 {
        assert(prev.len() == 0);
    } else {
        lemma_record_at(front, times, if k < n { k } else { 0 });
    }
    assert(prev.len() == 7 * n);
    if k < n {
        assert(7 * k + 7 <= 7 * n);
        assert(all.subrange(7 * k, 7 * k + 7) =~= prev.subrange(7 * k, 7 * k + 7));
    } else {
        assert(all.subrange(7 * k, 7 * k + 7) =~= rec);
    }
}

/// The listing of `n` entries is `n` records of seven lines, the `k`-th
/// record describing `entries[k]` and ending with the separator line.
#[verifier::rlimit(40)]
pub proof fn lemma_one_record_per_entry(entries: Seq<EntryMetadata>, times: Seq<Seq<char>>)
    ensures
        listing_lines(entries, times).len() == 7 * entries.len(),
        forall|k: int|
            0 <= k < entries.len() ==> #[trigger] listing_lines(entries, times).subrange(7 * k, 7 * k + 7)
                == record_lines(k as nat, entries[k], times[k]),
        forall|k: int|
            0 <= k < entries.len() ==> #[trigger] listing_lines(entries, times)[7 * k + 6]
                == separator(),
{
    if entries.len() == 0 {
        assert(listing_lines(entries, times).len() == 0);
    } else {
        lemma_record_at(entries, times, 0);
    }
    let all = listing_lines(entries, times);
    assert forall|k: int| 0 <= k < entries.len() implies #[trigger] all.subrange(7 * k, 7 * k + 7)
        == record_lines(k as nat, entries[k], times[k]) by {
        lemma_record_at(entries, times, k);
    }
    assert forall|k: int| 0 <= k < entries.len() implies #[trigger] all[7 * k + 6] == separator() by {
        lemma_record_at(entries, times, k);
        assert(all.subrange(7 * k, 7 * k + 7)[6] == all[7 * k + 6]);
    }
}

/// The record of every entry states its size in bytes, in decimal digits
/// that read back as exactly that size.
pub proof fn lemma_sizes_reported(entries: Seq<EntryMetadata>, times: Seq<Seq<char>>)
    ensures
        forall|k: int|
            0 <= k < entries.len() ==> #[trigger] listing_lines(entries, times)[7 * k + 3]
                == "3. File Size: "@ + decimal_digits(entries[k].size as nat) + " bytes"@,
        forall|k: int|
            0 <= k < entries.len() ==> digits_value(decimal_digits(#[trigger] entries[k].size as nat))
                == entries[k].size,
{
    let all = listing_lines(entries, times);
    assert forall|k: int| 0 <= k < entries.len() implies #[trigger] all[7 * k + 3] == "3. File Size: "@
        + decimal_digits(entries[k].size as nat) + " bytes"@ by {
        lemma_record_at(entries, times, k);
        assert(all.subrange(7 * k, 7 * k + 7)[3] == all[7 * k + 3]);
    }
    assert forall|k: int| 0 <= k < entries.len() implies digits_value(
        decimal_digits(#[trigger] entries[k].size as nat),
    ) == entries[k].size by {
        lemma_decimal_round_trip(entries[k].size as nat);
    }
}

/// The record of every subdirectory states that it is a directory.
pub proof fn lemma_directories_flagged(entries: Seq<EntryMetadata>, times: Seq<Seq<char>>)
    ensures
        forall|k: int|
            0 <= k < entries.len() && entries[k].is_dir ==> #[trigger] listing_lines(entries, times)[7
                * k + 2] == "2. Is Directory: true"@,
{
    let all = listing_lines(entries, times);
    reveal_strlit("2. Is Directory: true");
    reveal_strlit("2. Is Directory: ");
    reveal_strlit("true");
    assert forall|k: int| 0 <= k < entries.len() && entries[k].is_dir implies #[trigger] all[7 * k
        + 2] == "2. Is Directory: true"@ by {
        lemma_record_at(entries, times, k);
        assert(all.subrange(7 * k, 7 * k + 7)[2] == all[7 * k + 2]);
        assert("2. Is Directory: "@ + "true"@ =~= "2. Is Directory: true"@);
    }
}

} // verus!
