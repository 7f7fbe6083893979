//! The set of installed packages, and how it is read from the output of the
//! listing command.

use vstd::prelude::*;
use vstd::string::StringSliceAdditionalSpecFns;
use vstd::utf8::{decode_utf8, encode_utf8_decode_utf8, valid_utf8};
use crate::outcome::RunResult;
use crate::text::{
    chars_of, is_blank, is_trimmed, lemma_trim, lemma_trimmed_not_blank, lines, texts, trim, trimmed_bounds,
};

verus! {

/// A set of package names. No name occurs twice; the order in which the names
/// are kept is the order in which they came in, and carries no meaning.
#[derive(Debug)]
pub struct InstalledPackageSet {
    names: Vec<String>,
}

impl View for InstalledPackageSet {
    type V = Set<Seq<char>>;

    open spec fn view(&self) -> Set<Seq<char>> {
        self.names_view().to_set()
    }
}

impl Clone for InstalledPackageSet {
    fn clone(&self) -> (copy: InstalledPackageSet)
        ensures
            copy.names_view() == self.names_view(),
    {
        proof {
            use_type_invariant(self);
        }
        let names = self.names.clone();
        assert(texts(names@) =~= texts(self.names@));
        InstalledPackageSet { names }
    }
}

impl InstalledPackageSet {
    /// The names in the order in which the set hands them out.
    pub closed spec fn names_view(&self) -> Seq<Seq<char>> {
        texts(self.names@)
    }

    /// No name occurs twice. This holds of every set.
    pub open spec fn wf(&self) -> bool {
        self.names_view().no_duplicates()
    }

    #[verifier::type_invariant]
    spec fn names_differ(&self) -> bool {
        texts(self.names@).no_duplicates()
    }

    pub fn new() -> (set: InstalledPackageSet)
        ensures
            set.wf(),
            set.names_view() == Seq::<Seq<char>>::empty(),
    {
        let set = InstalledPackageSet { names: Vec::new() };
        assert(set.names_view() =~= Seq::<Seq<char>>::empty());
        set
    }

    pub fn len(&self) -> (count: usize)
        ensures
            count == self.names_view().len(),
    {
        self.names.len()
    }

    pub fn is_empty(&self) -> (empty: bool)
        ensures
            empty == (self.names_view().len() == 0),
    {
        self.names.len() == 0
    }

    /// The names, each once.
    pub fn names(&self) -> (names: &Vec<String>)
        ensures
            self.wf(),
            texts(names@) == self.names_view(),
            names@.len() == self.names_view().len(),
    {
        proof {
            use_type_invariant(self);
        }
        &self.names
    }

    fn holds(&self, name: &String) -> (found: bool)
        ensures
            found == self.names_view().contains(name@),
    {
        let mut index: usize = 0;
        while index < self.names.len()
            invariant
                index <= self.names.len(),
                forall|earlier: int| 0 <= earlier < index ==> (#[trigger] self.names_view()[earlier]) != name@,
            decreases self.names.len() - index,
        {
            if self.names[index] == *name {
                assert(self.names_view()[index as int] == name@);
                return true;
            }
            index += 1;
        }
        false
    }

    pub fn contains(&self, name: &str) -> (found: bool)
        ensures
            found == self@.contains(name@),
            found == self.names_view().contains(name@),
    {
        let owned = name.to_owned();
        self.holds(&owned)
    }

    /// Adds a name unless the set holds it already, and tells whether it was
    /// added.
    pub fn insert(&mut self, name: String) -> (added: bool)
        ensures
            old(self).wf(),
            final(self).wf(),
            added == !old(self)@.contains(name@),
            final(self)@ == old(self)@.insert(name@),
            final(self).names_view() == (if added {
                old(self).names_view().push(name@)
            } else {
                old(self).names_view()
            }),
    {
        proof {
            use_type_invariant(&*self);
        }
        if self.holds(&name) {
            assert(self@ =~= self@.insert(name@));
            false
        } else {
            let ghost before = self.names_view();
            let mut taken = InstalledPackageSet::new();
            core::mem::swap(self, &mut taken);
            let mut names = taken.names;
            names.push(name);
            assert(texts(names@) =~= before.push(name@));
            *self = InstalledPackageSet { names };
            assert(self@ =~= old(self)@.insert(name@)) by {
                assert forall|n: Seq<char>| self@.contains(n) <==> old(self)@.insert(name@).contains(n) by {
                    if before.push(name@).contains(n) {
                        let i = choose|i: int| 0 <= i < before.push(name@).len() && before.push(name@)[i] == n;
                        if i < before.len() {
                            assert(before[i] == n);
                        }
                    }
                    if before.contains(n) {
                        let i = choose|i: int| 0 <= i < before.len() && before[i] == n;
                        assert(before.push(name@)[i] == n);
                    }
                    if n == name@ {
                        assert(before.push(name@)[before.len() as int] == n);
                    }
                }
            }
            true
        }
    }
}

/// Takes one line of a listing into the names found so far: the line's text
/// without the white space around it, unless nothing is left of it or the name
/// was found before.
pub open spec fn add_line(found: Seq<Seq<char>>, line: Seq<char>) -> Seq<Seq<char>> {
    let name = trim(line);
    if name.len() == 0 || found.contains(name) {
        found
    } else {
        found.push(name)
    }
}

/// The names that a sequence of lines gives, each once, in the order in which
/// they first occur.
pub open spec fn names_of_lines(all: Seq<Seq<char>>) -> Seq<Seq<char>>
    decreases all.len(),
{
    if all.len() == 0 {
        Seq::empty()
    } else {
        add_line(names_of_lines(all.drop_last()), all.last())
    }
}

/// The package names that a listing holds: one per line, without the white
/// space around it; empty lines give none, and a name that occurs again gives
/// none either.
pub open spec fn listed_names(listing: Seq<char>) -> Seq<Seq<char>> {
    names_of_lines(lines(listing))
}

/// Reads the installed packages off the text that the listing command printed.
pub fn parse_listing(listing: &str) -> (set: InstalledPackageSet)
    ensures
        set.wf(),
        set.names_view() == listed_names(listing@),
        forall|name: Seq<char>| set@.contains(name) ==> is_trimmed(name) && !is_blank(name),
{
    proof {
        lemma_listed_names_clean(listing@);
    }
    let chars = chars_of(listing);
    let mut set = InstalledPackageSet::new();
    let mut start: usize = 0;
    let mut index: usize = 0;
    while index < chars.len()
        invariant
            chars@ == listing@,
            start <= index <= chars.len(),
            set.names_view() == names_of_lines(lines(chars@.take(index as int)).drop_last()),
            lines(chars@.take(index as int)).len() > 0,
            lines(chars@.take(index as int)).last() == chars@.subrange(start as int, index as int),
        decreases chars.len() - index,
    {
        let ghost before = lines(chars@.take(index as int));
        let ghost here = chars@.take(index + 1);
        assert(here.drop_last() =~= chars@.take(index as int));
        assert(here.last() == chars@[index as int]);
        if chars[index] == '\n' {
            take_line(&mut set, listing, &chars, start, index);
            assert(lines(here) == before.push(Seq::empty()));
            assert(lines(here).drop_last() =~= before);
            start = index + 1;
            assert(lines(here).last() =~= chars@.subrange(start as int, index + 1));
        } else {
            assert(lines(here) == before.update(before.len() - 1, before.last().push(here.last())));
            assert(lines(here).drop_last() =~= before.drop_last());
            assert(lines(here).last() =~= chars@.subrange(start as int, index + 1));
        }
        index += 1;
    }
    assert(chars@.take(index as int) =~= chars@);
    take_line(&mut set, listing, &chars, start, index);
    set
}

/// Takes the line `chars[start..end]` into the set.
fn take_line(set: &mut InstalledPackageSet, listing: &str, chars: &Vec<char>, start: usize, end: usize)
    requires
        chars@ == listing@,
        start <= end <= chars.len(),
    ensures
        final(set).names_view() == add_line(old(set).names_view(), chars@.subrange(start as int, end as int)),
{
    let (first, last) = trimmed_bounds(chars, start, end);
    if first < last {
        let name = listing.substring_char(first, last).to_owned();
        set.insert(name);
    }
}

/// Why the installed packages could not be listed.
#[derive(Clone, Debug, PartialEq, Eq)]
pub enum ListingError {
    /// The listing command could not be started; `reason` says why.
    SpawnFailed { reason: String },
    /// What the listing command printed is not text.
    NotText,
}

/// Decodes bytes as UTF-8 text by `std::str::from_utf8`. The text is returned
/// exactly where the bytes are well-formed UTF-8, and is then made of those
/// very bytes.
#[verifier::external_body]
fn text_of_bytes(bytes: &[u8]) -> (text: Option<&str>)
    ensures
        text is Some <==> valid_utf8(bytes@),
        text matches Some(decoded) ==> decoded.spec_bytes() == bytes@,
{
    std::str::from_utf8(bytes).ok()
}

/// What listing gives for a result of the listing command: the error, or the
/// names in the order in which they are kept.
pub open spec fn spec_installed(result: RunResult) -> Result<Seq<Seq<char>>, ListingError> {
    match result {
        RunResult::SpawnFailed { reason } => Err(ListingError::SpawnFailed { reason }),
        RunResult::Completed { stdout, .. } => if valid_utf8(stdout@) {
            Ok(listed_names(decode_utf8(stdout@)))
        } else {
            Err(ListingError::NotText)
        },
    }
}

/// Reads the set of installed packages off the result of the listing command.
///
/// Fails where the command could not be started, with the reason given, and
/// where its output is not UTF-8 text. Otherwise every line of the output gives
/// one name; the exit status is not looked at.
pub fn get_installed_packages(result: &RunResult) -> (installed: Result<InstalledPackageSet, ListingError>)
    ensures
        match installed {
            Ok(set) => {
                &&& set.wf()
                &&& spec_installed(*result) == Ok::<Seq<Seq<char>>, ListingError>(set.names_view())
                &&& forall|name: Seq<char>| set@.contains(name) ==> is_trimmed(name) && !is_blank(name)
            },
            Err(error) => spec_installed(*result) == Err::<Seq<Seq<char>>, ListingError>(error),
        },
{
    match result {
        RunResult::SpawnFailed { reason } => Err(ListingError::SpawnFailed { reason: reason.clone() }),
        RunResult::Completed { stdout, .. } => match text_of_bytes(stdout.as_slice()) {
            Some(listing) => {
                proof {
                    encode_utf8_decode_utf8(listing@);
                }
                Ok(parse_listing(listing))
            },
            None => Err(ListingError::NotText),
        },
    }
}

/// What a sequence of lines gives: names that are pairwise different, each
/// with no white space at its ends and not empty; and a text is among them
/// exactly where it is not empty and is what trimming leaves of some line.
pub proof fn lemma_names_of_lines(all: Seq<Seq<char>>)
    ensures
        names_of_lines(all).no_duplicates(),
        forall|i: int| 0 <= i < names_of_lines(all).len() ==> is_trimmed(#[trigger] names_of_lines(all)[i]),
        forall|name: Seq<char>|
            names_of_lines(all).contains(name) <==> name.len() > 0 && exists|i: int|
                0 <= i < all.len() && trim(#[trigger] all[i]) == name,
    decreases all.len(),
{
    if all.len() > 0 {
        let earlier = names_of_lines(all.drop_last());
        let found = names_of_lines(all);
        let name = trim(all.last());
        lemma_names_of_lines(all.drop_last());
        lemma_trim(all.last());
        assert forall|other: Seq<char>|
            found.contains(other) <==> other.len() > 0 && exists|i: int|
                0 <= i < all.len() && trim(#[trigger] all[i]) == other by {
            if found.contains(other) {
                let at = choose|at: int| 0 <= at < found.len() && found[at] == other;
                if at < earlier.len() {
                    assert(earlier[at] == other);
                    assert(earlier.contains(other));
                    let i = choose|i: int| 0 <= i < all.drop_last().len() && trim(#[trigger] all.drop_last()[i]) == other;
                    assert(trim(all[i]) == other);
                } else {
                    assert(trim(all[all.len() - 1]) == other);
                }
            }
            if other.len() > 0 && exists|i: int| 0 <= i < all.len() && trim(#[trigger] all[i]) == other {
                let i = choose|i: int| 0 <= i < all.len() && trim(#[trigger] all[i]) == other;
                if i < all.len() - 1 {
                    assert(trim(all.drop_last()[i]) == other);
                    assert(earlier.contains(other));
                    let at = choose|at: int| 0 <= at < earlier.len() && earlier[at] == other;
                    assert(found[at] == other);
                } else if earlier.contains(other) {
                    let at = choose|at: int| 0 <= at < earlier.len() && earlier[at] == other;
                    assert(found[at] == other);
                } else {
                    assert(found[earlier.len() as int] == other);
                }
            }
        }
    }
}

/// The names read off a listing are pairwise different, and none is empty,
/// made of white space only, or has white space at either end.
pub proof fn lemma_listed_names_clean(listing: Seq<char>)
    ensures
        listed_names(listing).no_duplicates(),
        forall|i: int|
            0 <= i < listed_names(listing).len() ==> {
                &&& is_trimmed(#[trigger] listed_names(listing)[i])
                &&& !is_blank(listed_names(listing)[i])
            },
{
    lemma_names_of_lines(lines(listing));
    assert forall|i: int| 0 <= i < listed_names(listing).len() implies !is_blank(
        #[trigger] listed_names(listing)[i],
    ) by {
        lemma_trimmed_not_blank(listed_names(listing)[i]);
    }
}

/// A text is among the names read off a listing exactly where it is not empty
/// and is what trimming leaves of one of the listing's lines.
pub proof fn lemma_listed_names_members(listing: Seq<char>, name: Seq<char>)
    ensures
        listed_names(listing).contains(name) <==> name.len() > 0 && exists|i: int|
            0 <= i < lines(listing).len() && trim(#[trigger] lines(listing)[i]) == name,
{
    lemma_names_of_lines(lines(listing));
}

} // verus!
