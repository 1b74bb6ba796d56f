use vstd::prelude::*;

use crate::text::{push_char, text, texts};

verus! {

#[verifier::external_type_specification]
#[verifier::external_body]
pub struct ExInstruction(parity_wasm::elements::Instruction);

/// Relies on the `Display` of `parity_wasm::elements::Instruction`: its text form.
#[verifier::external_body]
fn instruction_text(instr: &parity_wasm::elements::Instruction) -> (r: String) {
    instr.to_string()
}

/// `s` up to its first space.
pub open spec fn first_word(s: Seq<char>) -> Seq<char>
    decreases s.len(),
{
    if s.len() == 0 {
        s
    } else {
        let w = first_word(s.drop_last());
        if w.len() < s.len() - 1 {
            w
        } else if s.last() == ' ' {
            s.drop_last()
        } else {
            s
        }
    }
}

/// The first index at or after `j` where `names` holds `n`, if any.
pub open spec fn name_index(names: Seq<Seq<char>>, n: Seq<char>, j: int) -> Option<int>
    decreases names.len() - j,
{
    if j < 0 || j >= names.len() {
        None
    } else if names[j] == n {
        Some(j)
    } else {
        name_index(names, n, j + 1)
    }
}

/// The index of the first entry for `id` at or after `j`, or the number of entries.
pub open spec fn entry_index(counters: Seq<(i32, u64)>, id: i32, j: int) -> int
    decreases counters.len() - j,
{
    if j < 0 || j >= counters.len() {
        counters.len() as int
    } else if counters[j].0 == id {
        j
    } else {
        entry_index(counters, id, j + 1)
    }
}

/// The count recorded for `id`, zero if none.
pub open spec fn count_in(counters: Seq<(i32, u64)>, id: i32) -> int {
    let j = entry_index(counters, id, 0);
    if j < counters.len() {
        counters[j].1 as int
    } else {
        0
    }
}

/// Counts executions per instruction kind; each kind gets the next id when
/// first seen.
pub struct InstrCounter {
    counters: Vec<(i32, u64)>,
    instr_map: Vec<String>,
}

impl InstrCounter {
    /// The kinds seen so far; the id of a kind is its index.
    pub closed spec fn names(&self) -> Seq<Seq<char>> {
        texts(self.instr_map@)
    }

    /// The (id, count) entries, in the order ids were first counted.
    pub closed spec fn entries(&self) -> Seq<(i32, u64)> {
        self.counters@
    }

    /// How many times `id` was counted.
    pub open spec fn count_of(&self, id: i32) -> int {
        count_in(self.entries(), id)
    }

    /// A counter that has seen nothing.
    pub fn new() -> (r: InstrCounter)
        ensures
            r.names().len() == 0,
            r.entries().len() == 0,
    {
        InstrCounter { counters: Vec::new(), instr_map: Vec::new() }
    }

    /// Count one execution of the instruction with this id.
    pub fn inc(&mut self, instr: i32)
        requires
            old(self).count_of(instr) < u64::MAX,
        ensures
            final(self).names() == old(self).names(),
            final(self).count_of(instr) == old(self).count_of(instr) + 1,
            forall|other: i32|
                other != instr ==> final(self).count_of(other) == old(self).count_of(other),
    {
        let ghost before = self.counters@;
        let ghost start = *self;
        let mut j: usize = 0;
        let mut found = false;
        while j < self.counters.len() && !found
            invariant
                j <= self.counters.len(),
                before == self.counters@,
                !found ==> entry_index(before, instr, 0) == entry_index(before, instr, j as int),
                found ==> j < self.counters.len() && entry_index(before, instr, 0) == j,
            decreases self.counters.len() - j + (if found { 0int } else { 1int }),
        {
            if self.counters[j].0 == instr {
                found = true;
            } else {
                j = j + 1;
            }
        }
        if found {
            let (id, c) = self.counters[j];
            assert(c as int == count_in(before, instr));
            proof {
                lemma_index_hit(before, instr, 0);
            }
            self.counters.set(j, (id, c + 1));
            proof {
                assert forall|other: i32| other != instr implies #[trigger] self.count_of(other)
                    == start.count_of(other) by {
                    lemma_index_same_keys(self.counters@, before, other, 0);
                    lemma_index_hit(before, other, 0);
                    let k = entry_index(before, other, 0);
                    if k < before.len() {
                        assert(k != j);
                        assert(self.counters@[k] == before[k]);
                    }
                }
                lemma_index_same_keys(self.counters@, before, instr, 0);
            }
        } else {
            self.counters.push((instr, 1));
            proof {
                assert forall|other: i32| other != instr implies #[trigger] self.count_of(other)
                    == start.count_of(other) by {
                    lemma_index_push(before, (instr, 1u64), other, 0);
                    lemma_index_hit(before, other, 0);
                }
                lemma_index_push(before, (instr, 1u64), instr, 0);
                lemma_index_hit(before, instr, 0);
            }
        }
    }

    /// The id of the instruction kind named by the first word of `text`: the
    /// one it already has, or the next one.
    pub fn id_for_instruction_text(&mut self, text: &str) -> (r: i32)
        requires
            old(self).names().len() < i32::MAX,
        ensures
            final(self).entries() == old(self).entries(),
            match name_index(old(self).names(), first_word(text@), 0) {
                Some(j) => r == j && final(self).names() == old(self).names(),
                None => r == old(self).names().len() && final(self).names() == old(
                    self,
                ).names().push(first_word(text@)),
            },
    {
        let word = first_word_of(text);
        let ghost names = self.names();
        let mut j: usize = 0;
        let mut found = false;
        while j < self.instr_map.len() && !found
            invariant
                j <= self.instr_map.len(),
                names == texts(self.instr_map@),
                self.instr_map.len() < i32::MAX,
                !found ==> name_index(names, word@, 0) == name_index(names, word@, j as int),
                found ==> j < self.instr_map.len() && name_index(names, word@, 0) == Some(j as int),
            decreases self.instr_map.len() - j + (if found { 0int } else { 1int }),
        {
            if self.instr_map[j] == word {
                found = true;
            } else {
                j = j + 1;
            }
        }
        if found {
            j as i32
        } else {
            let id = self.instr_map.len() as i32;
            self.instr_map.push(word);
            assert(self.names() =~= names.push(first_word(text@)));
            id
        }
    }

    /// The id of an instruction's kind (see `id_for_instruction_text`).
    pub fn id_for_instruction(&mut self, instr: &parity_wasm::elements::Instruction) -> (r: i32)
        requires
            old(self).names().len() < i32::MAX,
        ensures
            final(self).entries() == old(self).entries(),
            0 <= r <= old(self).names().len(),
            r < final(self).names().len(),
    {
        let t = instruction_text(instr);
        proof {
            lemma_name_index_bounds(self.names(), first_word(t@), 0);
        }
        self.id_for_instruction_text(t.as_str())
    }

    /// How many instruction kinds have an id.
    pub fn kinds(&self) -> (r: usize)
        ensures
            r == self.names().len(),
    {
        self.instr_map.len()
    }

    /// The name of the kind with this id.
    pub fn instruction_for_id(&self, id: i32) -> (r: Option<String>)
        ensures
            0 <= id < self.names().len() ==> (r matches Some(s) && s@ == self.names()[id as int]),
            !(0 <= id < self.names().len()) ==> r is None,
    {
        if 0 <= id && (id as usize) < self.instr_map.len() {
            Some(self.instr_map[id as usize].clone())
        } else {
            None
        }
    }

    /// Each counted id's kind name (or a placeholder when it has none) with its count.
    pub fn total_count(&self) -> (r: Vec<(String, u64)>)
        ensures
            r@.len() == self.entries().len(),
            forall|i: int|
                0 <= i < r@.len() ==> (#[trigger] r@[i]).1 == self.entries()[i].1 && (if 0
                    <= self.entries()[i].0 < self.names().len() {
                    r@[i].0@ == self.names()[self.entries()[i].0 as int]
                } else {
                    r@[i].0@ == "<unknown instruciton>"@
                }),
    {
        let mut r: Vec<(String, u64)> = Vec::new();
        let mut i: usize = 0;
        while i < self.counters.len()
            invariant
                i <= self.counters.len(),
                r@.len() == i,
                forall|l: int|
                    0 <= l < i ==> (#[trigger] r@[l]).1 == self.entries()[l].1 && (if 0
                        <= self.entries()[l].0 < self.names().len() {
                        r@[l].0@ == self.names()[self.entries()[l].0 as int]
                    } else {
                        r@[l].0@ == "<unknown instruciton>"@
                    }),
            decreases self.counters.len() - i,
        {
            let (id, count) = self.counters[i];
            let name = match self.instruction_for_id(id) {
                Some(n) => n,
                None => text("<unknown instruciton>"),
            };
            r.push((name, count));
            i = i + 1;
        }
        r
    }
}

/// `s` up to its first space (see `first_word`).
fn first_word_of(s: &str) -> (r: String)
    ensures
        r@ == first_word(s@),
{
    let n = s.unicode_len();
    let mut r = String::new();
    let mut i: usize = 0;
    while i < n
        invariant
            i <= n,
            n == s@.len(),
            r@ == s@.take(i as int),
            first_word(s@.take(i as int)) == s@.take(i as int),
        decreases n - i,
    {
        let c = s.get_char(i);
        assert(s@.take(i + 1).drop_last() =~= s@.take(i as int));
        if c == ' ' {
            proof {
                lemma_first_word_stops(s@, i as int);
            }
            return r;
        }
        push_char(&mut r, c);
        assert(r@ =~= s@.take(i + 1));
        i = i + 1;
    }
    assert(s@.take(n as int) =~= s@);
    r
}

proof fn lemma_first_word_stops(s: Seq<char>, i: int)
    requires
        0 <= i < s.len(),
        s[i] == ' ',
        first_word(s.take(i)) == s.take(i),
    ensures
        first_word(s) == s.take(i),
    decreases s.len(),
{
    if s.len() == i + 1 {
        assert(s.drop_last() =~= s.take(i));
    } else {
        assert(s.drop_last().take(i) =~= s.take(i));
        lemma_first_word_stops(s.drop_last(), i);
    }
}

proof fn lemma_name_index_bounds(names: Seq<Seq<char>>, n: Seq<char>, j: int)
    requires
        0 <= j,
    ensures
        name_index(names, n, j) matches Some(k) ==> j <= k < names.len(),
    decreases names.len() - j,
{
    if j < names.len() && names[j] != n {
        lemma_name_index_bounds(names, n, j + 1);
    }
}

proof fn lemma_index_hit(c: Seq<(i32, u64)>, id: i32, j: int)
    requires
        0 <= j,
    ensures
        j <= c.len() ==> j <= entry_index(c, id, j) <= c.len(),
        entry_index(c, id, j) < c.len() ==> c[entry_index(c, id, j)].0 == id,
    decreases c.len() - j,
{
    if j < c.len() && c[j].0 != id {
        lemma_index_hit(c, id, j + 1);
    }
}

proof fn lemma_index_same_keys(c: Seq<(i32, u64)>, d: Seq<(i32, u64)>, id: i32, j: int)
    requires
        c.len() == d.len(),
        forall|i: int| 0 <= i < c.len() ==> c[i].0 == d[i].0,
        0 <= j,
    ensures
        entry_index(c, id, j) == entry_index(d, id, j),
    decreases c.len() - j,
{
    if j < c.len() && c[j].0 != id {
        lemma_index_same_keys(c, d, id, j + 1);
    }
}

proof fn lemma_index_push(c: Seq<(i32, u64)>, x: (i32, u64), id: i32, j: int)
    requires
        0 <= j <= c.len(),
    ensures
        entry_index(c.push(x), id, j) == (if entry_index(c, id, j) < c.len() {
            entry_index(c, id, j)
        } else if x.0 == id {
            c.len() as int
        } else {
            c.len() + 1int
        }),
    decreases c.len() - j,
{
    let d = c.push(x);
    if j < c.len() {
        assert(d[j] == c[j]);
        if c[j].0 != id {
            lemma_index_push(c, x, id, j + 1);
        }
    } else {
        assert(d[j] == x);
        if x.0 != id {
            assert(entry_index(d, id, j + 1) == d.len());
        }
    }
}

} // verus!
