//! The swarm scratchpad: the latest output of each agent role, shared with
//! the roles that run after it.
use vstd::prelude::*;

use crate::keyed::{
    find_name, insert_sorted, lemma_table_absent, lemma_table_at, lemma_table_insert_at, lemma_table_names,
    names_ascending,
    names_distinct, put_name, table_of,
};
use crate::text::{chars_of, push_str, to_owned_string};
use vstd::utf8::{encode_scalar, encode_utf8};

verus! {

/// Outputs longer than this many bytes are cut when shown to other roles.
pub const MAX_OUTPUT_BYTES: usize = 2000;

/// Role outputs by role name.
pub struct SwarmScratchpad {
    entries: Vec<(String, String)>,
}

/// The outputs by role, as texts.
pub open spec fn text_table(e: Seq<(String, String)>) -> Map<Seq<char>, Seq<char>> {
    table_of(e).map_values(|s: String| s@)
}

impl View for SwarmScratchpad {
    type V = Map<Seq<char>, Seq<char>>;

    closed spec fn view(&self) -> Map<Seq<char>, Seq<char>> {
        text_table(self.entries@)
    }
}

/// How many leading characters of `o` fit in `budget` bytes of UTF-8.
pub open spec fn fit_chars(o: Seq<char>, budget: int) -> nat
    decreases o.len(),
{
    if o.len() == 0 || encode_scalar(o[0] as u32).len() > budget {
        0
    } else {
        1 + fit_chars(o.drop_first(), budget - encode_scalar(o[0] as u32).len())
    }
}

/// The characters that fit are the longest prefix whose UTF-8 form fits in
/// `budget` bytes: it fits, and one more character would not.
pub proof fn lemma_fit_chars(o: Seq<char>, budget: int)
    requires
        budget >= 0,
    ensures
        fit_chars(o, budget) <= o.len(),
        encode_utf8(o.take(fit_chars(o, budget) as int)).len() <= budget,
        fit_chars(o, budget) < o.len() ==> encode_utf8(o.take(fit_chars(o, budget) as int + 1)).len() > budget,
    decreases o.len(),
{
    if o.len() == 0 {
        assert(o.take(0) =~= Seq::<char>::empty());
    } else {
        let w = encode_scalar(o[0] as u32).len();
        let k = fit_chars(o, budget);
        if w > budget {
            assert(o.take(0) =~= Seq::<char>::empty());
            assert(o.take(1).drop_first() =~= Seq::<char>::empty());
            assert(encode_utf8(Seq::<char>::empty()) =~= Seq::<u8>::empty());
        } else {
            let r = o.drop_first();
            lemma_fit_chars(r, budget - w);
            let k2 = fit_chars(r, budget - w);
            assert(o.take(k as int).drop_first() =~= r.take(k2 as int));
            assert(o.take(k as int)[0] == o[0]);
            if k < o.len() {
                assert(o.take(k as int + 1).drop_first() =~= r.take(k2 as int + 1));
                assert(o.take(k as int + 1)[0] == o[0]);
            }
        }
    }
}

/// An output as shown to other roles: when its UTF-8 form is longer than 2000
/// bytes, the longest run of its leading characters that fits in 2000 bytes
/// (so it is cut at the last character boundary at or before byte 2000),
/// marked as truncated.
pub open spec fn shown_output(o: Seq<char>) -> Seq<char> {
    if encode_utf8(o).len() > 2000 {
        o.take(fit_chars(o, 2000) as int) + "... [truncated]"@
    } else {
        o
    }
}

/// The prompt lines for `(role, output)` pairs, in order.
pub open spec fn prompt_lines(l: Seq<(String, String)>) -> Seq<char>
    decreases l.len(),
{
    if l.len() == 0 {
        Seq::empty()
    } else {
        prompt_lines(l.drop_last()) + "\n- "@ + l.last().0@ + ": "@ + shown_output(l.last().1@)
    }
}

/// `l` lists the outputs of `m`, by role name in ascending order.
pub open spec fn is_sorted_listing(l: Seq<(String, String)>, m: Map<Seq<char>, Seq<char>>) -> bool {
    &&& names_ascending(l)
    &&& forall|i: int| 0 <= i < l.len() ==> m.contains_key((#[trigger] l[i]).0@) && m[l[i].0@] == l[i].1@
    &&& forall|k: Seq<char>| #[trigger] m.contains_key(k) ==> exists|i: int| 0 <= i < l.len() && l[i].0@ == k
}

/// The number of bytes of the UTF-8 form of `c`.
fn utf8_width(c: char) -> (n: usize)
    ensures
        n == encode_scalar(c as u32).len(),
{
    let u = c as u32;
    if u < 0x80 {
        1
    } else if u < 0x800 {
        2
    } else if u < 0x10000 {
        proof {
            vstd::utf8::char_is_scalar(c);
        }
        3
    } else {
        4
    }
}

/// The output as shown to other roles.
fn show_output(output: &str) -> (s: String)
    ensures
        s@ == shown_output(output@),
{
    if output.as_bytes().len() > MAX_OUTPUT_BYTES {
        let cs = chars_of(output);
        let ghost o = cs@;
        let mut k: usize = 0;
        let mut used: usize = 0;
        proof {
            assert(o.skip(0) =~= o);
        }
        while k < cs.len() && used + utf8_width(cs[k]) <= MAX_OUTPUT_BYTES
            invariant
                o == cs@,
                k <= o.len(),
                used <= MAX_OUTPUT_BYTES,
                fit_chars(o, 2000) == k + fit_chars(o.skip(k as int), 2000 - used),
            decreases o.len() - k,
        {
            let w = utf8_width(cs[k]);
            proof {
                let r = o.skip(k as int);
                assert(r[0] == o[k as int]);
                assert(r.drop_first() =~= o.skip(k + 1));
            }
            used = used + w;
            k += 1;
        }
        proof {
            if k < o.len() {
                assert(o.skip(k as int)[0] == o[k as int]);
            }
        }
        let mut s = crate::text::string_from_char_range(cs.as_slice(), 0, k);
        assert(s@ =~= o.take(k as int));
        push_str(&mut s, "... [truncated]");
        s
    } else {
        to_owned_string(output)
    }
}

impl SwarmScratchpad {
    /// Each role occurs once.
    pub closed spec fn wf(&self) -> bool {
        names_distinct(self.entries@)
    }

    /// An empty scratchpad.
    pub fn new() -> (s: Self)
        ensures
            s.wf(),
            s@ == Map::<Seq<char>, Seq<char>>::empty(),
    {
        let s = SwarmScratchpad { entries: Vec::new() };
        assert(s@ =~= Map::<Seq<char>, Seq<char>>::empty());
        s
    }

    /// Records `output` as the latest output of `role`.
    pub fn write(&mut self, role: &str, output: &str)
        requires
            old(self).wf(),
        ensures
            final(self).wf(),
            final(self)@ == old(self)@.insert(role@, output@),
    {
        let ghost before = table_of(self.entries@);
        let o = to_owned_string(output);
        let ghost ov = o;
        put_name(&mut self.entries, to_owned_string(role), o);
        proof {
            assert(before.insert(role@, ov).map_values(|s: String| s@) =~= before.map_values(|s: String| s@).insert(
                role@,
                output@,
            ));
        }
    }

    /// The latest output of `role`, if any.
    pub fn read(&self, role: &str) -> (r: Option<String>)
        requires
            self.wf(),
        ensures
            match r {
                Some(o) => self@.contains_key(role@) && o@ == self@[role@],
                None => !self@.contains_key(role@),
            },
    {
        match find_name(&self.entries, role) {
            Some(i) => {
                proof {
                    lemma_table_at(self.entries@, i as int);
                }
                Some(self.entries[i].1.clone())
            },
            None => {
                proof {
                    lemma_table_absent(self.entries@, role@);
                }
                None
            },
        }
    }

    /// All outputs by role.
    pub fn entries(&self) -> (r: Vec<(String, String)>)
        requires
            self.wf(),
        ensures
            names_distinct(r@),
            text_table(r@) == self@,
    {
        let mut r: Vec<(String, String)> = Vec::new();
        let mut i: usize = 0;
        while i < self.entries.len()
            invariant
                i <= self.entries@.len(),
                r@.len() == i,
                forall|k: int| 0 <= k < i ==> (#[trigger] r@[k]).0@ == self.entries@[k].0@ && r@[k].1@
                    == self.entries@[k].1@,
            decreases self.entries@.len() - i,
        {
            r.push((self.entries[i].0.clone(), self.entries[i].1.clone()));
            i += 1;
        }
        proof {
            lemma_same_text_table(r@, self.entries@);
        }
        r
    }

    /// Whether no output is recorded.
    pub fn is_empty(&self) -> (r: bool)
        requires
            self.wf(),
        ensures
            r == (self@.len() == 0),
    {
        proof {
            lemma_text_table_len(self.entries@);
        }
        self.entries.len() == 0
    }

    /// Forgets every output.
    pub fn clear(&mut self)
        ensures
            final(self).wf(),
            final(self)@ == Map::<Seq<char>, Seq<char>>::empty(),
    {
        self.entries.clear();
        assert(self@ =~= Map::<Seq<char>, Seq<char>>::empty());
    }

    /// The outputs by role name in ascending order.
    fn sorted_entries(&self) -> (r: Vec<(String, String)>)
        requires
            self.wf(),
        ensures
            is_sorted_listing(r@, self@),
    {
        let ghost e = self.entries@;
        let mut sorted: Vec<(String, String)> = Vec::new();
        let mut i: usize = 0;
        while i < self.entries.len()
            invariant
                e == self.entries@,
                names_distinct(e),
                i <= e.len(),
                names_ascending(sorted@),
                names_distinct(sorted@),
                table_of(sorted@) == table_of(e.take(i as int)),
            decreases e.len() - i,
        {
            let ghost old_sorted = sorted@;
            let item = (self.entries[i].0.clone(), self.entries[i].1.clone());
            let ghost it = item;
            proof {
                let pre = e.take(i as int);
                assert(names_distinct(pre));
                assert forall|j: int| 0 <= j < pre.len() implies pre[j].0@ != e[i as int].0@ by {
                    assert(pre[j] == e[j]);
                }
                lemma_table_absent(pre, e[i as int].0@);
                assert forall|j: int| 0 <= j < old_sorted.len() implies old_sorted[j].0@ != it.0@ by {
                    lemma_table_at(old_sorted, j);
                }
            }
            let p = insert_sorted(&mut sorted, item);
            proof {
                assert(names_distinct(sorted@)) by {
                    assert forall|a: int, b: int| 0 <= a < b < sorted@.len() implies sorted@[a].0@ != sorted@[b].0@ by {
                        crate::text::lemma_seq_lt_irreflexive(sorted@[a].0@);
                    }
                }
                lemma_table_insert_at(old_sorted, p as int, it);
                assert(e.take(i + 1) =~= e.take(i as int).push(e[i as int]));
                assert(e.take(i + 1).drop_last() =~= e.take(i as int));
                assert(table_of(sorted@) =~= table_of(e.take(i + 1))) by {
                    assert(e.take(i + 1).last() == e[i as int]);
                }
            }
            i += 1;
        }
        proof {
            assert(e.take(i as int) =~= e);
            assert forall|j: int| 0 <= j < sorted@.len() implies self@.contains_key((#[trigger] sorted@[j]).0@)
                && self@[sorted@[j].0@] == sorted@[j].1@ by {
                lemma_table_at(sorted@, j);
            }
            assert forall|k: Seq<char>| #[trigger] self@.contains_key(k) implies exists|j: int|
                0 <= j < sorted@.len() && sorted@[j].0@ == k by {
                lemma_table_names(sorted@, k);
            }
        }
        sorted
    }

    /// The outputs as a prompt section: `Previous agent outputs:` followed by
    /// one `- role: output` line per role, by role name, each output cut to
    /// 2000 bytes; `None` when nothing is recorded.
    pub fn format_for_prompt(&self) -> (r: Option<String>)
        requires
            self.wf(),
        ensures
            self@.len() == 0 ==> r is None,
            self@.len() > 0 ==> (r matches Some(s) && exists|l: Seq<(String, String)>|
                #[trigger] is_sorted_listing(l, self@) && s@ == "Previous agent outputs:"@ + prompt_lines(l)),
    {
        proof {
            lemma_text_table_len(self.entries@);
        }
        if self.entries.len() == 0 {
            return None;
        }
        let sorted = self.sorted_entries();
        let mut s = to_owned_string("Previous agent outputs:");
        let mut k: usize = 0;
        while k < sorted.len()
            invariant
                k <= sorted@.len(),
                is_sorted_listing(sorted@, self@),
                s@ == "Previous agent outputs:"@ + prompt_lines(sorted@.take(k as int)),
            decreases sorted@.len() - k,
        {
            assert(self@.contains_key(sorted@[k as int].0@));
            push_str(&mut s, "\n- ");
            push_str(&mut s, sorted[k].0.as_str());
            push_str(&mut s, ": ");
            let shown = show_output(sorted[k].1.as_str());
            push_str(&mut s, shown.as_str());
            proof {
                let t = sorted@.take(k + 1);
                assert(t.drop_last() =~= sorted@.take(k as int));
                assert(t.last() == sorted@[k as int]);
            }
            k += 1;
        }
        assert(sorted@.take(k as int) =~= sorted@);
        Some(s)
    }
}

/// Entries with the same names and texts stand for the same table.
proof fn lemma_same_text_table(a: Seq<(String, String)>, b: Seq<(String, String)>)
    requires
        a.len() == b.len(),
        forall|k: int| 0 <= k < a.len() ==> (#[trigger] a[k]).0@ == b[k].0@ && a[k].1@ == b[k].1@,
    ensures
        text_table(a) == text_table(b),
        names_distinct(a) == names_distinct(b),
    decreases a.len(),
{
    assert forall|i: int, j: int| 0 <= i < j < a.len() implies (a[i].0@ != a[j].0@) == (b[i].0@ != b[j].0@) by {
        assert(a[i].0@ == b[i].0@);
        assert(a[j].0@ == b[j].0@);
    }
    if a.len() > 0 {
        lemma_same_text_table(a.drop_last(), b.drop_last());
        assert(text_table(a) =~= text_table(a.drop_last()).insert(a.last().0@, a.last().1@));
        assert(text_table(b) =~= text_table(b.drop_last()).insert(b.last().0@, b.last().1@));
    } else {
        assert(text_table(a) =~= text_table(b));
    }
}

/// The table has an entry for each entry (names distinct).
proof fn lemma_text_table_len(e: Seq<(String, String)>)
    requires
        names_distinct(e),
    ensures
        text_table(e).len() == e.len(),
    decreases e.len(),
{
    if e.len() > 0 {
        let s = e.drop_last();
        assert(names_distinct(s));
        lemma_text_table_len(s);
        assert forall|i: int| 0 <= i < s.len() implies s[i].0@ != e.last().0@ by {
            assert(s[i] == e[i]);
        }
        lemma_table_absent(s, e.last().0@);
        lemma_text_table_finite(s);
        assert(!text_table(s).contains_key(e.last().0@));
        assert(text_table(e) =~= text_table(s).insert(e.last().0@, e.last().1@));
    } else {
        assert(text_table(e) =~= Map::<Seq<char>, Seq<char>>::empty());
    }
}

proof fn lemma_text_table_finite(e: Seq<(String, String)>)
    ensures
        text_table(e).dom().finite(),
    decreases e.len(),
{
    if e.len() > 0 {
        lemma_text_table_finite(e.drop_last());
        assert(text_table(e) =~= text_table(e.drop_last()).insert(e.last().0@, e.last().1@));
    } else {
        assert(text_table(e).dom() =~= Set::<Seq<char>>::empty());
    }
}

} // verus!
