//! The word dictionary: built once from the lines of a text file, it
//! collapses duplicates and drops empty lines, leaving a set of words.
//! Reading the file is the caller's business; this module turns the
//! lines into the set.

use vstd::prelude::*;

verus! {

/// The set of words a sequence of lines yields: one element per
/// distinct non-empty line.
pub open spec fn word_set(lines: Seq<Seq<char>>) -> Set<Seq<char>>
    decreases lines.len(),
{
    if lines.len() == 0 {
        Set::empty()
    } else if lines.last().len() == 0 {
        word_set(lines.drop_last())
    } else {
        word_set(lines.drop_last()).insert(lines.last())
    }
}

/// `word_set` holds exactly the non-empty lines, and is finite.
pub proof fn lemma_word_set_membership(lines: Seq<Seq<char>>)
    ensures
        word_set(lines).finite(),
        forall|w: Seq<char>|
            #[trigger] word_set(lines).contains(w) <==> (w.len() > 0 && lines.contains(w)),
    decreases lines.len(),
{
    broadcast use vstd::set::group_set_axioms;

    if lines.len() == 0 {
    } else {
        let prefix = lines.drop_last();
        lemma_word_set_membership(prefix);
        assert forall|w: Seq<char>| #[trigger] word_set(lines).contains(w) implies (w.len() > 0
            && lines.contains(w)) by {
            if word_set(prefix).contains(w) {
                let i = choose|i: int| 0 <= i < prefix.len() && prefix[i] == w;
                assert(lines[i] == w);
            } else {
                assert(w == lines.last());
                assert(lines[lines.len() - 1] == w);
            }
        }
        assert forall|w: Seq<char>| (w.len() > 0 && lines.contains(w)) implies #[trigger] word_set(
            lines,
        ).contains(w) by {
            let i = choose|i: int| 0 <= i < lines.len() && lines[i] == w;
            if i < lines.len() - 1 {
                assert(prefix[i] == w);
                assert(prefix.contains(w));
            } else {
                assert(w == lines.last());
            }
        }
    }
}

/// The set of views of the stored words.
pub open spec fn stored_set(words: Seq<String>) -> Set<Seq<char>> {
    Set::new(|w: Seq<char>| exists|i: int| 0 <= i < words.len() && words[i]@ == w)
}

/// With pairwise distinct words, the stored set is finite and has one
/// element per word.
proof fn lemma_stored_set_len(words: Seq<String>)
    requires
        forall|i: int, j: int| 0 <= i < j < words.len() ==> words[i]@ != words[j]@,
    ensures
        stored_set(words).finite(),
        stored_set(words).len() == words.len(),
    decreases words.len(),
{
    broadcast use vstd::set::group_set_axioms;

    if words.len() == 0 {
        assert(stored_set(words) =~= Set::<Seq<char>>::empty());
    } else {
        let prefix = words.drop_last();
        lemma_stored_set_len(prefix);
        let last = words.last()@;
        assert forall|w: Seq<char>| #[trigger] stored_set(words).contains(w) implies stored_set(
            prefix,
        ).insert(last).contains(w) by {
            let i = choose|i: int| 0 <= i < words.len() && words[i]@ == w;
            if i < words.len() - 1 {
                assert(prefix[i]@ == w);
            }
        }
        assert forall|w: Seq<char>| #[trigger] stored_set(prefix).insert(last).contains(
            w,
        ) implies stored_set(words).contains(w) by {
            if stored_set(prefix).contains(w) {
                let i = choose|i: int| 0 <= i < prefix.len() && prefix[i]@ == w;
                assert(words[i]@ == w);
            } else {
                assert(words[words.len() - 1]@ == w);
            }
        }
        assert(stored_set(words) =~= stored_set(prefix).insert(last));
        assert(!stored_set(prefix).contains(last)) by {
            if stored_set(prefix).contains(last) {
                let i = choose|i: int| 0 <= i < prefix.len() && prefix[i]@ == last;
                assert(words[i]@ == words[words.len() - 1]@);
            }
        }
    }
}

/// A set of words: distinct, none empty.
pub struct Dictionary {
    words: Vec<String>,
}

impl View for Dictionary {
    type V = Set<Seq<char>>;

    closed spec fn view(&self) -> Set<Seq<char>> {
        stored_set(self.words@)
    }
}

/// Whether one of the stored words reads `w`.
fn scan_words(words: &Vec<String>, w: &String) -> (r: bool)
    ensures
        r == exists|i: int| 0 <= i < words@.len() && words@[i]@ == w@,
{
    let mut i: usize = 0;
    while i < words.len()
        invariant
            i <= words@.len(),
            forall|j: int| 0 <= j < i ==> words@[j]@ != w@,
        decreases words@.len() - i,
    {
        if words[i].eq(w) {
            return true;
        }
        i = i + 1;
    }
    false
}

impl Dictionary {
    /// The stored words are pairwise distinct and none is empty.
    pub closed spec fn well_formed(&self) -> bool {
        &&& forall|i: int, j: int|
            0 <= i < j < self.words@.len() ==> self.words@[i]@ != self.words@[j]@
        &&& forall|i: int| 0 <= i < self.words@.len() ==> self.words@[i]@.len() > 0
    }

    /// Build the dictionary from the lines of a file: empty lines are
    /// dropped and duplicates collapse, so the result is exactly the
    /// set of distinct non-empty lines.
    pub fn from_lines(lines: &Vec<String>) -> (d: Dictionary)
        ensures
            d.well_formed(),
            d@ == word_set(lines@.map_values(|s: String| s@)),
    {
        let ghost mapped = lines@.map_values(|s: String| s@);
        let mut words: Vec<String> = Vec::new();
        let mut i: usize = 0;
        while i < lines.len()
            invariant
                i <= lines@.len(),
                mapped == lines@.map_values(|s: String| s@),
                forall|p: int, q: int| 0 <= p < q < words@.len() ==> words@[p]@ != words@[q]@,
                forall|p: int| 0 <= p < words@.len() ==> words@[p]@.len() > 0,
                forall|p: int|
                    0 <= p < words@.len() ==> exists|k: int|
                        0 <= k < i && mapped[k] == #[trigger] words@[p]@,
                forall|k: int|
                    0 <= k < i && mapped[k].len() > 0 ==> exists|p: int|
                        0 <= p < words@.len() && words@[p]@ == #[trigger] mapped[k],
            decreases lines@.len() - i,
        {
            let line = &lines[i];
            assert(line@ == mapped[i as int]);
            let ghost prev_words = words@;
            if !line.as_str().is_empty() && !scan_words(&words, line) {
                words.push(line.clone());
            }
            proof {
                assert forall|k: int| 0 <= k < i + 1 && mapped[k].len() > 0 implies exists|p: int|
                    0 <= p < words@.len() && words@[p]@ == #[trigger] mapped[k] by {
                    if k < i {
                        let p = choose|p: int|
                            0 <= p < prev_words.len() && prev_words[p]@ == mapped[k];
                        assert(words@[p]@ == mapped[k]);
                    } else {
                        assert(mapped[k] == line@);
                        if words@.len() > prev_words.len() {
                            assert(words@[words@.len() - 1]@ == line@);
                        } else {
                            let p = choose|p: int|
                                0 <= p < prev_words.len() && prev_words[p]@ == line@;
                            assert(words@[p]@ == mapped[k]);
                        }
                    }
                }
            }
            i = i + 1;
        }
        let d = Dictionary { words };
        proof {
            lemma_word_set_membership(mapped);
            assert forall|w: Seq<char>| #[trigger] d@.contains(w) implies word_set(mapped).contains(
                w,
            ) by {
                let p = choose|p: int| 0 <= p < d.words@.len() && d.words@[p]@ == w;
                let k = choose|k: int| 0 <= k < mapped.len() && mapped[k] == d.words@[p]@;
                assert(mapped.contains(w));
            }
            assert forall|w: Seq<char>| word_set(mapped).contains(w) implies #[trigger] d@.contains(
                w,
            ) by {
                let k = choose|k: int| 0 <= k < mapped.len() && mapped[k] == w;
            }
            assert(d@ =~= word_set(mapped));
        }
        d
    }

    /// Whether `w` is one of the dictionary's words.
    pub fn contains(&self, w: &String) -> (r: bool)
        ensures
            r == self@.contains(w@),
    {
        scan_words(&self.words, w)
    }

    /// How many words the dictionary holds.
    pub fn len(&self) -> (n: usize)
        requires
            self.well_formed(),
        ensures
            n == self@.len(),
    {
        proof {
            lemma_stored_set_len(self.words@);
        }
        self.words.len()
    }
}

} // verus!
