//! The persisted key/value settings store.
//!
//! A store is a list of `(key, value)` pairs kept strictly sorted by key, so
//! that serialization is deterministic: two stores holding the same mapping
//! serialize to byte-identical text. Serialization writes one `KEY=VALUE`
//! line per entry; parsing splits each line at its first `=` and trims both
//! sides. Reading the file and writing it back belong to the caller; this
//! module owns the content format and the in-memory mutation.
use vstd::prelude::*;

use crate::text::spec_lookup;
use crate::text::find_char;
use crate::text::find_idx;
use crate::text::lemma_find_idx;
use crate::text::lemma_find_idx_is;
use crate::text::lemma_split_prepend;
use crate::text::lemma_seq_lt_trans;
use crate::text::lemma_seq_lt_trichotomy;
use crate::text::seq_lt;
use crate::text::spec_split;
use crate::text::spec_trim;
use crate::text::split_char;
use crate::text::str_eq;
use crate::text::str_lt;
use crate::text::substring;
use crate::text::trim;

verus! {

/// Entry keys are strictly ascending in lexicographic order; in particular
/// they are distinct.
pub open spec fn sorted_entries(es: Seq<(Seq<char>, Seq<char>)>) -> bool {
    forall|i: int, j: int| 0 <= i < j < es.len() ==> seq_lt(es[i].0, es[j].0)
}

/// `es` with `v` bound to `k`: replaces the entry holding `k`, or places a
/// new entry at its sorted position.
pub open spec fn spec_insert(
    es: Seq<(Seq<char>, Seq<char>)>,
    k: Seq<char>,
    v: Seq<char>,
) -> Seq<(Seq<char>, Seq<char>)>
    decreases es.len(),
{
    if es.len() == 0 {
        seq![(k, v)]
    } else if k == es[0].0 {
        seq![(k, v)] + es.skip(1)
    } else if seq_lt(k, es[0].0) {
        seq![(k, v)] + es
    } else {
        seq![es[0]] + spec_insert(es.skip(1), k, v)
    }
}

/// Inserting binds `k` to `v` and leaves every other key alone.
pub proof fn lemma_lookup_insert(
    es: Seq<(Seq<char>, Seq<char>)>,
    k: Seq<char>,
    v: Seq<char>,
    q: Seq<char>,
)
    ensures
        spec_lookup(spec_insert(es, k, v), q) == if q == k {
            Some(v)
        } else {
            spec_lookup(es, q)
        },
    decreases es.len(),
{
    lemma_seq_lt_trichotomy(k, if es.len() > 0 {
        es[0].0
    } else {
        k
    });
    if es.len() == 0 {
        let r = seq![(k, v)];
        assert(r[0] == (k, v));
        assert(r.skip(1) =~= Seq::<(Seq<char>, Seq<char>)>::empty());
        assert(spec_lookup(r, q) == if q == k {
            Some(v)
        } else {
            spec_lookup(r.skip(1), q)
        });
    } else if k == es[0].0 {
        let r = seq![(k, v)] + es.skip(1);
        assert(spec_insert(es, k, v) == r);
        assert(r[0] == (k, v));
        assert(r.skip(1) =~= es.skip(1));
        assert(spec_lookup(r, q) == if q == k {
            Some(v)
        } else {
            spec_lookup(es.skip(1), q)
        });
        assert(q != k ==> spec_lookup(es, q) == spec_lookup(es.skip(1), q));
    } else if seq_lt(k, es[0].0) {
        let r = seq![(k, v)] + es;
        assert(spec_insert(es, k, v) == r);
        assert(r[0] == (k, v));
        assert(r.skip(1) =~= es);
        assert(spec_lookup(r, q) == if q == k {
            Some(v)
        } else {
            spec_lookup(es, q)
        });
    } else {
        lemma_lookup_insert(es.skip(1), k, v, q);
        let r = seq![es[0]] + spec_insert(es.skip(1), k, v);
        assert(spec_insert(es, k, v) == r);
        assert(r[0] == es[0]);
        assert(r.skip(1) =~= spec_insert(es.skip(1), k, v));
        assert(k != es[0].0);
        assert(spec_lookup(r, q) == if q == es[0].0 {
            Some(es[0].1)
        } else {
            spec_lookup(spec_insert(es.skip(1), k, v), q)
        });
        assert(spec_lookup(es, q) == if q == es[0].0 {
            Some(es[0].1)
        } else {
            spec_lookup(es.skip(1), q)
        });
    }
}

/// No key of a sorted list lies strictly below the head key.
proof fn lemma_lookup_below(es: Seq<(Seq<char>, Seq<char>)>, q: Seq<char>)
    requires
        sorted_entries(es),
        es.len() > 0 ==> seq_lt(q, es[0].0),
    ensures
        spec_lookup(es, q) is None,
    decreases es.len(),
{
    if es.len() > 0 {
        lemma_seq_lt_trichotomy(q, es[0].0);
        assert(es[0].0 != q);
        if es.len() > 1 {
            assert(seq_lt(es[0].0, es[1].0));
            lemma_seq_lt_trans(q, es[0].0, es[1].0);
        }
        assert(forall|i: int, j: int|
            0 <= i < j < es.skip(1).len() ==> es.skip(1)[i] == es[i + 1] && es.skip(1)[j] == es[j
                + 1]);
        lemma_lookup_below(es.skip(1), q);
    }
}

/// Two sorted lists holding the same mapping are the same list; with
/// serialization a pure function of the list, repeated saves of one mapping
/// are byte-identical.
pub proof fn lemma_sorted_same_mapping(
    es1: Seq<(Seq<char>, Seq<char>)>,
    es2: Seq<(Seq<char>, Seq<char>)>,
)
    requires
        sorted_entries(es1),
        sorted_entries(es2),
        forall|q: Seq<char>| #[trigger] spec_lookup(es1, q) == spec_lookup(es2, q),
    ensures
        es1 == es2,
    decreases es1.len() + es2.len(),
{
    if es1.len() == 0 && es2.len() == 0 {
        assert(es1 =~= es2);
    } else if es1.len() == 0 {
        assert(spec_lookup(es2, es2[0].0) == Some(es2[0].1));
        assert(spec_lookup(es1, es2[0].0) is None);
        assert(false);
    } else if es2.len() == 0 {
        assert(spec_lookup(es2, es1[0].0) is None);
        assert(spec_lookup(es1, es1[0].0) == Some(es1[0].1));
        assert(false);
    } else {
        let k1 = es1[0].0;
        let k2 = es2[0].0;
        lemma_seq_lt_trichotomy(k1, k2);
        if seq_lt(k1, k2) {
            lemma_lookup_below(es2, k1);
            assert(spec_lookup(es1, k1) == Some(es1[0].1));
            assert(false);
        }
        if seq_lt(k2, k1) {
            lemma_lookup_below(es1, k2);
            assert(spec_lookup(es2, k2) == Some(es2[0].1));
            assert(false);
        }
        assert(k1 == k2);
        assert(spec_lookup(es1, k1) == Some(es1[0].1));
        assert(spec_lookup(es2, k1) == Some(es2[0].1));
        assert(es1[0].1 == es2[0].1);
        assert(forall|i: int, j: int|
            0 <= i < j < es1.skip(1).len() ==> es1.skip(1)[i] == es1[i + 1] && es1.skip(1)[j]
                == es1[j + 1]);
        assert(forall|i: int, j: int|
            0 <= i < j < es2.skip(1).len() ==> es2.skip(1)[i] == es2[i + 1] && es2.skip(1)[j]
                == es2[j + 1]);
        assert forall|q: Seq<char>| #[trigger] spec_lookup(es1.skip(1), q) == spec_lookup(
            es2.skip(1),
            q,
        ) by {
            if q == k1 {
                if es1.skip(1).len() > 0 {
                    assert(seq_lt(es1[0].0, es1[1].0));
                    assert(es1.skip(1)[0] == es1[1]);
                }
                lemma_lookup_below(es1.skip(1), q);
                if es2.skip(1).len() > 0 {
                    assert(seq_lt(es2[0].0, es2[1].0));
                    assert(es2.skip(1)[0] == es2[1]);
                }
                lemma_lookup_below(es2.skip(1), q);
            } else {
                assert(spec_lookup(es1, q) == spec_lookup(es1.skip(1), q));
                assert(spec_lookup(es2, q) == spec_lookup(es2.skip(1), q));
            }
        }
        lemma_sorted_same_mapping(es1.skip(1), es2.skip(1));
        assert(es1[0] == (es1[0].0, es1[0].1));
        assert(es2[0] == (es2[0].0, es2[0].1));
        assert(es1[0] == es2[0]);
        assert(forall|j: int| 1 <= j < es1.len() ==> es1[j] == es1.skip(1)[j - 1]);
        assert(forall|j: int| 1 <= j < es2.len() ==> es2[j] == es2.skip(1)[j - 1]);
        assert(es1 =~= es2);
    }
}

/// An entry that the line format can carry faithfully: no `=` or newline in
/// the key, no newline in the value, and no whitespace at either end of
/// either.
pub open spec fn entry_clean(e: (Seq<char>, Seq<char>)) -> bool {
    &&& forall|i: int| 0 <= i < e.0.len() ==> e.0[i] != '=' && e.0[i] != '\n'
    &&& forall|i: int| 0 <= i < e.1.len() ==> e.1[i] != '\n'
    &&& spec_trim(e.0) == e.0
    &&& spec_trim(e.1) == e.1
}

/// One serialized entry: `KEY=VALUE`.
pub open spec fn spec_line(e: (Seq<char>, Seq<char>)) -> Seq<char> {
    e.0 + seq!['='] + e.1
}

/// The serialized store: entries in order, one line each, joined by a
/// newline, with no trailing newline.
pub open spec fn spec_serialize(es: Seq<(Seq<char>, Seq<char>)>) -> Seq<char>
    decreases es.len(),
{
    if es.len() == 0 {
        Seq::empty()
    } else if es.len() == 1 {
        spec_line(es[0])
    } else {
        spec_line(es[0]) + seq!['\n'] + spec_serialize(es.skip(1))
    }
}

proof fn lemma_serialize_push(es: Seq<(Seq<char>, Seq<char>)>, e: (Seq<char>, Seq<char>))
    ensures
        spec_serialize(es.push(e)) == if es.len() == 0 {
            spec_line(e)
        } else {
            spec_serialize(es) + seq!['\n'] + spec_line(e)
        },
    decreases es.len(),
{
    if es.len() == 0 {
        assert(es.push(e)[0] == e);
        assert(spec_serialize(es.push(e)) == spec_line(e));
    } else {
        lemma_serialize_push(es.skip(1), e);
        assert(es.push(e).skip(1) =~= es.skip(1).push(e));
        assert(es.push(e)[0] == es[0]);
        if es.len() == 1 {
            assert(spec_serialize(es.skip(1)) =~= Seq::<char>::empty());
            assert(spec_serialize(es.push(e)) == spec_line(es[0]) + seq!['\n'] + spec_line(e));
            assert(spec_serialize(es) == spec_line(es[0]));
        } else {
            assert(spec_serialize(es.push(e)) == spec_line(es[0]) + seq!['\n'] + (spec_serialize(
                es.skip(1),
            ) + seq!['\n'] + spec_line(e)));
            assert(spec_line(es[0]) + seq!['\n'] + (spec_serialize(es.skip(1)) + seq!['\n']
                + spec_line(e)) =~= (spec_line(es[0]) + seq!['\n'] + spec_serialize(es.skip(1)))
                + seq!['\n'] + spec_line(e));
        }
    }
}

/// The effect of one parsed line on the store built so far: a line with no
/// `=` is skipped; otherwise the line is split at its first `=`, both sides
/// are trimmed, and the pair is inserted.
pub open spec fn spec_parse_line(
    acc: Seq<(Seq<char>, Seq<char>)>,
    line: Seq<char>,
) -> Seq<(Seq<char>, Seq<char>)> {
    let i = find_idx(line, '=');
    if i < 0 {
        acc
    } else {
        spec_insert(
            acc,
            spec_trim(line.subrange(0, i)),
            spec_trim(line.subrange(i + 1, line.len() as int)),
        )
    }
}

/// Folds the lines into a store, first line first.
pub open spec fn spec_parse_lines(
    acc: Seq<(Seq<char>, Seq<char>)>,
    lines: Seq<Seq<char>>,
) -> Seq<(Seq<char>, Seq<char>)>
    decreases lines.len(),
{
    if lines.len() == 0 {
        acc
    } else {
        spec_parse_lines(spec_parse_line(acc, lines[0]), lines.skip(1))
    }
}

/// The store parsed from a config file's content.
pub open spec fn spec_parse(content: Seq<char>) -> Seq<(Seq<char>, Seq<char>)> {
    spec_parse_lines(Seq::empty(), spec_split(content, '\n'))
}

proof fn lemma_parse_lines_push(
    acc: Seq<(Seq<char>, Seq<char>)>,
    lines: Seq<Seq<char>>,
    l: Seq<char>,
)
    ensures
        spec_parse_lines(acc, lines.push(l)) == spec_parse_line(
            spec_parse_lines(acc, lines),
            l,
        ),
    decreases lines.len(),
{
    if lines.len() == 0 {
        assert(lines.push(l)[0] == l);
        assert(lines.push(l).skip(1) =~= Seq::<Seq<char>>::empty());
        assert(spec_parse_lines(acc, lines.push(l)) == spec_parse_lines(
            spec_parse_line(acc, l),
            Seq::<Seq<char>>::empty(),
        ));
        assert(spec_parse_lines(spec_parse_line(acc, l), Seq::<Seq<char>>::empty())
            == spec_parse_line(acc, l));
        assert(spec_parse_lines(acc, lines) == acc);
    } else {
        assert(lines.push(l)[0] == lines[0]);
        assert(lines.push(l).skip(1) =~= lines.skip(1).push(l));
        lemma_parse_lines_push(spec_parse_line(acc, lines[0]), lines.skip(1), l);
    }
}

/// Binding a key above every present key appends the entry.
proof fn lemma_insert_append(es: Seq<(Seq<char>, Seq<char>)>, k: Seq<char>, v: Seq<char>)
    requires
        sorted_entries(es),
        forall|j: int| 0 <= j < es.len() ==> seq_lt(#[trigger] es[j].0, k),
    ensures
        spec_insert(es, k, v) == es.push((k, v)),
{
    lemma_insert_position(es, k, v, es.len() as int);
    assert(es.take(es.len() as int) + seq![(k, v)] + es.skip(es.len() as int) =~= es.push((k, v)));
}

/// Parsing the serialization of `es` on top of `acc` appends `es` to `acc`,
/// provided every key of `es` lies above every key of `acc`.
proof fn lemma_round_trip_from(acc: Seq<(Seq<char>, Seq<char>)>, es: Seq<(Seq<char>, Seq<char>)>)
    requires
        sorted_entries(acc),
        sorted_entries(es),
        forall|i: int, j: int|
            0 <= i < acc.len() && 0 <= j < es.len() ==> seq_lt(
                #[trigger] acc[i].0,
                #[trigger] es[j].0,
            ),
        forall|i: int| 0 <= i < es.len() ==> entry_clean(#[trigger] es[i]),
    ensures
        spec_parse_lines(acc, spec_split(spec_serialize(es), '\n')) == acc + es,
    decreases es.len(),
{
    if es.len() == 0 {
        let empty = Seq::<char>::empty();
        assert(spec_serialize(es) == empty);
        lemma_find_idx(empty, '\n');
        assert(spec_split(empty, '\n') == seq![empty]);
        assert(seq![empty][0] == empty);
        assert(seq![empty].skip(1) =~= Seq::<Seq<char>>::empty());
        lemma_find_idx(empty, '=');
        assert(spec_parse_line(acc, empty) == acc);
        assert(spec_parse_lines(acc, seq![empty]) == spec_parse_lines(
            acc,
            Seq::<Seq<char>>::empty(),
        ));
        assert(spec_parse_lines(acc, Seq::<Seq<char>>::empty()) == acc);
        assert(acc + es =~= acc);
    } else {
        let k = es[0].0;
        let v = es[0].1;
        let line0 = spec_line(es[0]);
        assert(entry_clean(es[0]));
        assert(forall|i: int| 0 <= i < k.len() ==> line0[i] == k[i]);
        assert(line0[k.len() as int] == '=');
        assert(forall|i: int|
            k.len() + 1 <= i < line0.len() ==> line0[i] == v[i - k.len() - 1]);
        assert(forall|i: int| 0 <= i < line0.len() ==> line0[i] != '\n');
        lemma_find_idx_is(line0, '=', k.len() as int);
        assert(line0.subrange(0, k.len() as int) =~= k);
        assert(line0.subrange(k.len() as int + 1, line0.len() as int) =~= v);
        assert(spec_parse_line(acc, line0) == spec_insert(acc, k, v));
        assert(forall|j: int| 0 <= j < acc.len() ==> seq_lt(#[trigger] acc[j].0, k));
        lemma_insert_append(acc, k, v);
        assert((k, v) == es[0]);
        let acc1 = acc.push(es[0]);
        assert(sorted_entries(acc1)) by {
            assert(forall|j: int| 0 <= j < acc.len() ==> acc1[j] == acc[j]);
            assert(acc1[acc.len() as int] == es[0]);
        }
        if es.len() == 1 {
            assert(spec_serialize(es) == line0);
            lemma_find_idx(line0, '\n');
            if find_idx(line0, '\n') >= 0 {
                assert(line0[find_idx(line0, '\n')] == '\n');
                assert(false);
            }
            assert(spec_split(line0, '\n') == seq![line0]);
            assert(seq![line0][0] == line0);
            assert(seq![line0].skip(1) =~= Seq::<Seq<char>>::empty());
            assert(spec_parse_lines(acc, seq![line0]) == spec_parse_lines(
                spec_insert(acc, k, v),
                Seq::<Seq<char>>::empty(),
            ));
            assert(spec_parse_lines(acc1, Seq::<Seq<char>>::empty()) == acc1);
            assert(acc1 =~= acc + es);
        } else {
            let tail = es.skip(1);
            assert(spec_serialize(es) == line0 + seq!['\n'] + spec_serialize(tail));
            lemma_split_prepend(line0, spec_serialize(tail), '\n');
            let pieces = seq![line0] + spec_split(spec_serialize(tail), '\n');
            assert(pieces[0] == line0);
            assert(pieces.skip(1) =~= spec_split(spec_serialize(tail), '\n'));
            assert(spec_parse_lines(acc, pieces) == spec_parse_lines(
                acc1,
                spec_split(spec_serialize(tail), '\n'),
            ));
            assert(forall|j: int| 0 <= j < tail.len() ==> tail[j] == es[j + 1]);
            assert(sorted_entries(tail));
            assert(forall|i: int, j: int|
                0 <= i < acc1.len() && 0 <= j < tail.len() ==> seq_lt(
                    #[trigger] acc1[i].0,
                    #[trigger] tail[j].0,
                )) by {
                assert(forall|j: int| 0 <= j < acc.len() ==> acc1[j] == acc[j]);
                assert(acc1[acc.len() as int] == es[0]);
            }
            lemma_round_trip_from(acc1, tail);
            assert(acc1 + tail =~= acc + es);
        }
    }
}

/// Saving a store and loading the text back reproduces the store exactly,
/// entry for entry, whenever every entry is one the line format can carry.
pub proof fn lemma_save_load_round_trip(es: Seq<(Seq<char>, Seq<char>)>)
    requires
        sorted_entries(es),
        forall|i: int| 0 <= i < es.len() ==> entry_clean(#[trigger] es[i]),
    ensures
        spec_parse(spec_serialize(es)) == es,
{
    lemma_round_trip_from(Seq::empty(), es);
    assert(Seq::<(Seq<char>, Seq<char>)>::empty() + es =~= es);
}

/// The persisted key/value settings store: the entries, strictly sorted by
/// key, and the path of the file they live in.
pub struct Config {
    entries: Vec<(String, String)>,
    file_path: String,
}

impl View for Config {
    type V = Seq<(Seq<char>, Seq<char>)>;

    closed spec fn view(&self) -> Seq<(Seq<char>, Seq<char>)> {
        self.entries.deep_view()
    }
}

impl Config {
    /// The store keeps its entries strictly sorted by key.
    pub closed spec fn wf(self) -> bool {
        sorted_entries(self.entries.deep_view())
    }

    /// The path of the file this store was bound to.
    pub closed spec fn path_view(self) -> Seq<char> {
        self.file_path@
    }

    /// An empty store bound to `file_path`: the state for a config file
    /// that does not exist yet.
    pub fn new(file_path: &str) -> (r: Config)
        ensures
            r.wf(),
            r@ == Seq::<(Seq<char>, Seq<char>)>::empty(),
            r.path_view() == file_path@,
    {
        let r = Config { entries: Vec::new(), file_path: file_path.to_owned() };
        proof {
            assert(r.entries.deep_view() =~= Seq::<(Seq<char>, Seq<char>)>::empty());
        }
        r
    }

    /// The store parsed from the content of the file at `file_path`.
    pub fn from_content(file_path: &str, content: &str) -> (r: Config)
        ensures
            r.wf(),
            r@ == spec_parse(content@),
            r.path_view() == file_path@,
    {
        let mut r = Config::new(file_path);
        let lines = split_char(content, '\n');
        let ghost dv = lines.deep_view();
        let mut i: usize = 0;
        proof {
            assert(dv.take(0) =~= Seq::<Seq<char>>::empty());
        }
        while i < lines.len()
            invariant
                i <= lines.len(),
                r@ == spec_parse_lines(Seq::empty(), dv.take(i as int)),
                r.wf(),
                r.path_view() == file_path@,
            decreases lines.len() - i,
        {
            proof {
                assert(dv[i as int] == lines@[i as int]@);
                assert(dv.take(i + 1) =~= dv.take(i as int).push(dv[i as int]));
                lemma_parse_lines_push(Seq::empty(), dv.take(i as int), dv[i as int]);
            }
            let line = &lines[i];
            let llen = line.unicode_len();
            match find_char(line.as_str(), 0, '=') {
                Some(j) => {
                    proof {
                        lemma_find_idx(line@, '=');
                        if find_idx(line@, '=') < 0 {
                            assert(false);
                        }
                        if find_idx(line@, '=') < j {
                            assert(line@[find_idx(line@, '=')] == '=');
                            assert(false);
                        }
                        if find_idx(line@, '=') > j {
                            assert(line@[j as int] == '=');
                            assert(false);
                        }
                        assert(find_idx(line@, '=') == j);
                    }
                    let key_part = substring(line.as_str(), 0, j);
                    let value_part = substring(line.as_str(), j + 1, llen);
                    let key = trim(key_part.as_str());
                    let value = trim(value_part.as_str());
                    r.set(key, value);
                },
                None => {
                    proof {
                        lemma_find_idx(line@, '=');
                        if find_idx(line@, '=') >= 0 {
                            assert(line@[find_idx(line@, '=')] == '=');
                            assert(false);
                        }
                    }
                },
            }
            i = i + 1;
        }
        proof {
            assert(dv.take(lines.len() as int) =~= dv);
        }
        r
    }

    /// The value bound to `key`, if any.
    pub fn get(&self, key: &str) -> (r: Option<&String>)
        ensures
            match r {
                Some(v) => spec_lookup(self@, key@) == Some(v@),
                None => spec_lookup(self@, key@) is None,
            },
    {
        let ghost dv = self.entries.deep_view();
        let mut i: usize = 0;
        proof {
            assert(dv.skip(0) =~= dv);
        }
        while i < self.entries.len()
            invariant
                i <= self.entries.len(),
                spec_lookup(dv, key@) == spec_lookup(dv.skip(i as int), key@),
            decreases self.entries.len() - i,
        {
            proof {
                assert(dv[i as int] == (self.entries@[i as int].0@, self.entries@[i as int].1@));
                assert(dv.skip(i as int)[0] == dv[i as int]);
            }
            if str_eq(self.entries[i].0.as_str(), key) {
                return Some(&self.entries[i].1);
            }
            proof {
                assert(dv.skip(i as int).skip(1) =~= dv.skip(i + 1));
            }
            i = i + 1;
        }
        proof {
            assert(dv.skip(self.entries.len() as int).len() == 0);
        }
        None
    }

    /// Binds `value` to `key`, replacing any earlier binding.
    pub fn set(&mut self, key: String, value: String)
        requires
            old(self).wf(),
        ensures
            final(self).wf(),
            final(self)@ == spec_insert(old(self)@, key@, value@),
            final(self).path_view() == old(self).path_view(),
    {
        let ghost dv0 = self.entries.deep_view();
        let mut i: usize = 0;
        while i < self.entries.len() && str_lt(self.entries[i].0.as_str(), key.as_str())
            invariant
                i <= self.entries.len(),
                forall|j: int| 0 <= j < i ==> seq_lt(#[trigger] dv0[j].0, key@),
            decreases self.entries.len() - i,
        {
            proof {
                assert(dv0[i as int] == (self.entries@[i as int].0@, self.entries@[i as int].1@));
            }
            i = i + 1;
        }
        proof {
            if i < self.entries.len() {
                assert(dv0[i as int] == (self.entries@[i as int].0@, self.entries@[i as int].1@));
                assert(!seq_lt(dv0[i as int].0, key@));
            }
        }
        let replace = i < self.entries.len() && str_eq(self.entries[i].0.as_str(), key.as_str());
        if replace {
            self.entries.remove(i);
            self.entries.insert(i, (key, value));
            proof {
                let dv1 = self.entries.deep_view();
                assert(dv1 =~= dv0.update(i as int, (key@, value@)));
                lemma_insert_position(dv0, key@, value@, i as int);
            }
        } else {
            self.entries.insert(i, (key, value));
            proof {
                let dv1 = self.entries.deep_view();
                assert(dv1 =~= dv0.take(i as int) + seq![(key@, value@)] + dv0.skip(i as int));
                lemma_insert_position(dv0, key@, value@, i as int);
            }
        }
    }

    /// Serializes the store: one `KEY=VALUE` line per entry, keys in
    /// ascending order, lines joined by a newline.
    pub fn serialize(&self) -> (r: String)
        ensures
            r@ == spec_serialize(self@),
    {
        let ghost dv = self.entries.deep_view();
        let mut out = String::new();
        let mut i: usize = 0;
        proof {
            assert(dv.take(0) =~= Seq::<(Seq<char>, Seq<char>)>::empty());
            reveal_strlit("\n");
            reveal_strlit("=");
        }
        while i < self.entries.len()
            invariant
                i <= self.entries.len(),
                out@ == spec_serialize(dv.take(i as int)),
            decreases self.entries.len() - i,
        {
            proof {
                assert(dv[i as int] == (self.entries@[i as int].0@, self.entries@[i as int].1@));
                assert(dv.take(i + 1) =~= dv.take(i as int).push(dv[i as int]));
                lemma_serialize_push(dv.take(i as int), dv[i as int]);
            }
            if i > 0 {
                out.append("\n");
            }
            out.append(self.entries[i].0.as_str());
            out.append("=");
            out.append(self.entries[i].1.as_str());
            proof {
                assert("\n"@ =~= seq!['\n']);
                assert("="@ =~= seq!['=']);
                if i == 0 {
                    assert(out@ =~= spec_line(dv[0]));
                } else {
                    assert(out@ =~= spec_serialize(dv.take(i as int)) + seq!['\n'] + spec_line(
                        dv[i as int],
                    ));
                }
            }
            i = i + 1;
        }
        proof {
            assert(dv.take(self.entries.len() as int) =~= dv);
        }
        out
    }

    /// The file path this store is bound to.
    pub fn file_path(&self) -> (r: &String)
        ensures
            r@ == self.path_view(),
    {
        &self.file_path
    }
}

/// `spec_insert` lands at the first position whose key is not below `k`:
/// it replaces there when the key is `k`, and squeezes in otherwise, either
/// way keeping the list sorted.
proof fn lemma_insert_position(es: Seq<(Seq<char>, Seq<char>)>, k: Seq<char>, v: Seq<char>, i: int)
    requires
        sorted_entries(es),
        0 <= i <= es.len(),
        forall|j: int| 0 <= j < i ==> seq_lt(#[trigger] es[j].0, k),
        i < es.len() ==> !seq_lt(es[i].0, k),
    ensures
        i < es.len() && es[i].0 == k ==> spec_insert(es, k, v) == es.update(i, (k, v)),
        !(i < es.len() && es[i].0 == k) ==> spec_insert(es, k, v) == es.take(i) + seq![(k, v)]
            + es.skip(i),
        sorted_entries(spec_insert(es, k, v)),
    decreases es.len(),
{
    if es.len() == 0 {
        assert(spec_insert(es, k, v) == seq![(k, v)]);
        assert(es.take(0) + seq![(k, v)] + es.skip(0) =~= seq![(k, v)]);
        assert(sorted_entries(seq![(k, v)]));
    } else if i == 0 {
        lemma_seq_lt_trichotomy(k, es[0].0);
        if es[0].0 == k {
            assert(spec_insert(es, k, v) == seq![(k, v)] + es.skip(1));
            assert(seq![(k, v)] + es.skip(1) =~= es.update(0, (k, v)));
            assert forall|a: int, b: int|
                0 <= a < b < es.update(0, (k, v)).len() implies seq_lt(
                #[trigger] es.update(0, (k, v))[a].0,
                #[trigger] es.update(0, (k, v))[b].0,
            ) by {
                assert(seq_lt(es[a].0, es[b].0));
            }
        } else {
            assert(seq_lt(k, es[0].0));
            assert(spec_insert(es, k, v) == seq![(k, v)] + es);
            assert(seq![(k, v)] + es =~= es.take(0) + seq![(k, v)] + es.skip(0));
            let r = seq![(k, v)] + es;
            assert forall|a: int, b: int| 0 <= a < b < r.len() implies seq_lt(
                #[trigger] r[a].0,
                #[trigger] r[b].0,
            ) by {
                if a == 0 {
                    if b == 1 {
                        assert(r[b] == es[0]);
                    } else {
                        assert(r[b] == es[b - 1]);
                        assert(seq_lt(es[0].0, es[b - 1].0));
                        lemma_seq_lt_trans(k, es[0].0, es[b - 1].0);
                    }
                } else {
                    assert(r[a] == es[a - 1] && r[b] == es[b - 1]);
                    assert(seq_lt(es[a - 1].0, es[b - 1].0));
                }
            }
        }
    } else {
        assert(seq_lt(es[0].0, k));
        lemma_seq_lt_trichotomy(k, es[0].0);
        assert(k != es[0].0);
        assert(!seq_lt(k, es[0].0));
        assert(spec_insert(es, k, v) == seq![es[0]] + spec_insert(es.skip(1), k, v));
        let tail = es.skip(1);
        assert(forall|j: int| 0 <= j < tail.len() ==> tail[j] == es[j + 1]);
        assert(sorted_entries(tail));
        lemma_insert_position(tail, k, v, i - 1);
        let r = seq![es[0]] + spec_insert(tail, k, v);
        if i < es.len() && es[i].0 == k {
            assert(tail[i - 1].0 == k);
            assert(spec_insert(tail, k, v) == tail.update(i - 1, (k, v)));
            assert(r =~= es.update(i, (k, v)));
            assert forall|a: int, b: int|
                0 <= a < b < es.update(i, (k, v)).len() implies seq_lt(
                #[trigger] es.update(i, (k, v))[a].0,
                #[trigger] es.update(i, (k, v))[b].0,
            ) by {
                assert(seq_lt(es[a].0, es[b].0));
            }
        } else {
            assert(spec_insert(tail, k, v) == tail.take(i - 1) + seq![(k, v)] + tail.skip(i - 1));
            assert(r =~= es.take(i) + seq![(k, v)] + es.skip(i));
            let ins = es.take(i) + seq![(k, v)] + es.skip(i);
            assert forall|a: int, b: int| 0 <= a < b < ins.len() implies seq_lt(
                #[trigger] ins[a].0,
                #[trigger] ins[b].0,
            ) by {
                if i < es.len() {
                    lemma_seq_lt_trichotomy(k, es[i as int].0);
                }
                assert(forall|j: int| 0 <= j < i ==> ins[j] == es[j]);
                assert(forall|j: int| i < j < ins.len() ==> ins[j] == es[j - 1]);
                assert(ins[i as int] == (k, v));
                if a < i && b > i {
                    assert(seq_lt(ins[a].0, k) && seq_lt(k, ins[b].0)) by {
                        if b > i + 1 {
                            assert(seq_lt(es[i as int].0, es[b - 1].0));
                            lemma_seq_lt_trans(k, es[i as int].0, es[b - 1].0);
                        }
                    }
                    lemma_seq_lt_trans(ins[a].0, k, ins[b].0);
                } else if b == i {
                    assert(seq_lt(ins[a].0, k));
                } else if a == i {
                    assert(seq_lt(k, ins[b].0)) by {
                        if b > i + 1 {
                            assert(seq_lt(es[i as int].0, es[b - 1].0));
                            lemma_seq_lt_trans(k, es[i as int].0, es[b - 1].0);
                        }
                    }
                } else {
                    assert(seq_lt(es[if a < i {
                        a
                    } else {
                        a - 1
                    }].0, es[if b < i {
                        b
                    } else {
                        b - 1
                    }].0));
                }
            }
        }
    }
}

} // verus!
