//! Codec priority tables: which encodings the relay can republish, and in
//! which order it prefers them.

use vstd::prelude::*;
use crate::text::same_text;

verus! {

/// Rank given to an encoding that a priority table does not list. It is
/// larger than every configured rank, so unlisted encodings come last.
pub const UNRANKED_PRIORITY: u32 = 100;

/// Video encodings the relay republishes, with their ranks (lower is preferred).
pub const VIDEO_CODEC_PRIORITY: [(&'static str, u32); 4] = [
    ("h265", 1),
    ("h264", 2),
    ("vp9", 3),
    ("vp8", 4),
];

/// Audio encodings the relay republishes, with their ranks (lower is preferred).
pub const AUDIO_CODEC_PRIORITY: [(&'static str, u32); 4] = [
    ("opus", 1),
    ("pcmu", 2),
    ("pcma", 3),
    ("g722", 4),
];

/// Whether `table` has an entry for `name`.
pub open spec fn is_listed(table: Seq<(&str, u32)>, name: Seq<char>) -> bool {
    exists|i: int| 0 <= i < table.len() && (#[trigger] table[i]).0@ == name
}

/// The rank of `name` in `table`: that of its first entry, or
/// `UNRANKED_PRIORITY` where the table has none.
pub open spec fn rank_in(table: Seq<(&str, u32)>, name: Seq<char>) -> u32
    decreases table.len(),
{
    if table.len() == 0 {
        UNRANKED_PRIORITY
    } else if table[0].0@ == name {
        table[0].1
    } else {
        rank_in(table.subrange(1, table.len() as int), name)
    }
}

/// Looks `encoding_name` up in `priority_list`: the rank of its first entry,
/// or `UNRANKED_PRIORITY` where the list has none.
pub fn get_codec_priority(encoding_name: &str, priority_list: &[(&str, u32)]) -> (r: u32)
    ensures
        r == rank_in(priority_list@, encoding_name@),
        !is_listed(priority_list@, encoding_name@) ==> r == UNRANKED_PRIORITY,
{
    proof {
        if !is_listed(priority_list@, encoding_name@) {
            lemma_rank_of_unlisted(priority_list@, encoding_name@);
        }
    }
    let mut i: usize = 0;
    assert(priority_list@.subrange(0, priority_list@.len() as int) =~= priority_list@);
    while i < priority_list.len()
        invariant
            i <= priority_list.len(),
            rank_in(priority_list@, encoding_name@) == rank_in(
                priority_list@.subrange(i as int, priority_list@.len() as int),
                encoding_name@,
            ),
        decreases priority_list.len() - i,
    {
        let ghost rest = priority_list@.subrange(i as int, priority_list@.len() as int);
        assert(rest[0] == priority_list@[i as int]);
        assert(rest.subrange(1, rest.len() as int) =~= priority_list@.subrange(
            i + 1,
            priority_list@.len() as int,
        ));
        if same_text(priority_list[i].0, encoding_name) {
            return priority_list[i].1;
        }
        i += 1;
    }
    assert(priority_list@.subrange(i as int, priority_list@.len() as int).len() == 0);
    UNRANKED_PRIORITY
}

/// Whether `priority_list` has an entry for `encoding_name`.
pub fn is_codec_listed(encoding_name: &str, priority_list: &[(&str, u32)]) -> (r: bool)
    ensures
        r == is_listed(priority_list@, encoding_name@),
{
    let mut i: usize = 0;
    while i < priority_list.len()
        invariant
            i <= priority_list.len(),
            forall|k: int| 0 <= k < i ==> (#[trigger] priority_list@[k]).0@ != encoding_name@,
        decreases priority_list.len() - i,
    {
        if same_text(priority_list[i].0, encoding_name) {
            return true;
        }
        i += 1;
    }
    false
}

/// The kinds of media the relay republishes.
#[derive(Clone, Copy, Debug, PartialEq, Eq, Structural)]
pub enum MediaKind {
    Video,
    Audio,
}

/// The priority table of a media kind.
pub open spec fn table_of(kind: MediaKind) -> Seq<(&'static str, u32)> {
    match kind {
        MediaKind::Video => VIDEO_CODEC_PRIORITY@,
        MediaKind::Audio => AUDIO_CODEC_PRIORITY@,
    }
}

/// The rank of `encoding` among the encodings of `kind`: its configured rank
/// where the kind's table lists it, `UNRANKED_PRIORITY` otherwise.
pub fn priority(encoding: &str, kind: MediaKind) -> (r: u32)
    ensures
        r == rank_in(table_of(kind), encoding@),
        is_listed(table_of(kind), encoding@) ==> r < UNRANKED_PRIORITY,
        !is_listed(table_of(kind), encoding@) ==> r == UNRANKED_PRIORITY,
{
    proof {
        if is_listed(table_of(kind), encoding@) {
            lemma_configured_ranks(kind, encoding@);
        } else {
            lemma_rank_of_unlisted(table_of(kind), encoding@);
        }
    }
    match kind {
        MediaKind::Video => get_codec_priority(encoding, &VIDEO_CODEC_PRIORITY),
        MediaKind::Audio => get_codec_priority(encoding, &AUDIO_CODEC_PRIORITY),
    }
}

/// Whether the table of `kind` lists `encoding`.
pub fn is_supported(encoding: &str, kind: MediaKind) -> (r: bool)
    ensures
        r == is_listed(table_of(kind), encoding@),
{
    match kind {
        MediaKind::Video => is_codec_listed(encoding, &VIDEO_CODEC_PRIORITY),
        MediaKind::Audio => is_codec_listed(encoding, &AUDIO_CODEC_PRIORITY),
    }
}

/// An encoding without an entry gets the sentinel rank, in any table.
pub proof fn lemma_rank_of_unlisted(table: Seq<(&str, u32)>, name: Seq<char>)
    requires
        !is_listed(table, name),
    ensures
        rank_in(table, name) == UNRANKED_PRIORITY,
    decreases table.len(),
{
    if table.len() > 0 {
        let rest = table.subrange(1, table.len() as int);
        assert(table[0].0@ != name);
        assert forall|i: int| 0 <= i < rest.len() implies (#[trigger] rest[i]).0@ != name by {
            assert(rest[i] == table[i + 1]);
        }
        lemma_rank_of_unlisted(rest, name);
    }
}

/// A listed encoding has the rank of one of its entries.
pub proof fn lemma_rank_of_listed(table: Seq<(&str, u32)>, name: Seq<char>)
    requires
        is_listed(table, name),
    ensures
        exists|i: int|
            0 <= i < table.len() && (#[trigger] table[i]).0@ == name && table[i].1 == rank_in(
                table,
                name,
            ),
    decreases table.len(),
{
    let w = choose|i: int| 0 <= i < table.len() && (#[trigger] table[i]).0@ == name;
    if table[0].0@ == name {
        assert(table[0].1 == rank_in(table, name));
    } else {
        let rest = table.subrange(1, table.len() as int);
        assert(rest[w - 1] == table[w]);
        lemma_rank_of_listed(rest, name);
        let j = choose|i: int|
            0 <= i < rest.len() && (#[trigger] rest[i]).0@ == name && rest[i].1 == rank_in(
                rest,
                name,
            );
        assert(table[j + 1] == rest[j]);
    }
}

/// In the built-in tables every configured rank lies below the sentinel, and
/// no two entries share a rank: the rank of a listed encoding identifies it.
pub proof fn lemma_configured_ranks(kind: MediaKind, name: Seq<char>)
    requires
        is_listed(table_of(kind), name),
    ensures
        1 <= rank_in(table_of(kind), name) <= 4,
        forall|other: Seq<char>|
            is_listed(table_of(kind), other) && rank_in(table_of(kind), other) == rank_in(
                table_of(kind),
                name,
            ) ==> other == name,
{
    let table = table_of(kind);
    assert(table.len() == 4);
    lemma_rank_of_listed(table, name);
    assert forall|other: Seq<char>|
        is_listed(table, other) && rank_in(table, other) == rank_in(table, name) implies other
        == name by {
        lemma_rank_of_listed(table, other);
    }
}

} // verus!
