//! Scope sets: flat sets of capability names, held in the order in which the
//! names were first given.

use vstd::prelude::*;
use vstd::string::StringExecFns;
use vstd::string::StrSliceExecFns;
use crate::handlers::Error;

verus! {

/// A scope name is not empty and holds no space.
pub open spec fn valid_name(name: Seq<char>) -> bool {
    name.len() > 0 && !name.contains(' ')
}

/// Whether the names are valid and none occurs twice.
pub open spec fn valid_scopes(names: Seq<Seq<char>>) -> bool {
    names.no_duplicates() && forall|i: int| 0 <= i < names.len() ==> valid_name(#[trigger] names[i])
}

/// The views of the strings, in order.
pub open spec fn texts(names: Seq<String>) -> Seq<Seq<char>> {
    names.map_values(|s: String| s@)
}

/// The names without repetitions: each at the place of its first occurrence.
pub open spec fn dedup(names: Seq<Seq<char>>) -> Seq<Seq<char>>
    decreases names.len(),
{
    if names.len() == 0 {
        Seq::empty()
    } else {
        let head = dedup(names.drop_last());
        if head.contains(names.last()) {
            head
        } else {
            head.push(names.last())
        }
    }
}

/// The names of `a` that `b` holds too, in the order of `a`.
pub open spec fn common(a: Seq<Seq<char>>, b: Seq<Seq<char>>) -> Seq<Seq<char>>
    decreases a.len(),
{
    if a.len() == 0 {
        Seq::empty()
    } else {
        let head = common(a.drop_last(), b);
        if b.contains(a.last()) {
            head.push(a.last())
        } else {
            head
        }
    }
}

/// The names of `a`, then those of `b` that `a` lacks.
pub open spec fn merged(a: Seq<Seq<char>>, b: Seq<Seq<char>>) -> Seq<Seq<char>> {
    dedup(a + b)
}

/// Whether every name of `a` is one of `b`.
pub open spec fn within(a: Seq<Seq<char>>, b: Seq<Seq<char>>) -> bool {
    forall|n: Seq<char>| a.contains(n) ==> b.contains(n)
}

/// `dedup` keeps exactly the names it was given, each once.
pub proof fn lemma_dedup(names: Seq<Seq<char>>)
    ensures
        dedup(names).no_duplicates(),
        forall|n: Seq<char>| dedup(names).contains(n) <==> names.contains(n),
        (forall|i: int| 0 <= i < names.len() ==> valid_name(#[trigger] names[i])) ==> valid_scopes(
            dedup(names),
        ),
    decreases names.len(),
{
    if names.len() > 0 {
        let init = names.drop_last();
        let head = dedup(init);
        lemma_dedup(init);
        assert forall|n: Seq<char>| dedup(names).contains(n) <==> names.contains(n) by {
            if names.contains(n) {
                let i = choose|i: int| 0 <= i < names.len() && names[i] == n;
                if i < init.len() {
                    assert(init[i] == n);
                    assert(init.contains(n));
                    assert(head.contains(n));
                    if !head.contains(names.last()) {
                        let j = choose|j: int| 0 <= j < head.len() && head[j] == n;
                        assert(head.push(names.last())[j] == n);
                    }
                } else {
                    if !head.contains(names.last()) {
                        assert(head.push(names.last())[head.len() as int] == n);
                    }
                }
            }
            if dedup(names).contains(n) {
                let j = choose|j: int| 0 <= j < dedup(names).len() && dedup(names)[j] == n;
                if j < head.len() {
                    assert(head[j] == n);
                    assert(head.contains(n));
                    assert(init.contains(n));
                    let i = choose|i: int| 0 <= i < init.len() && init[i] == n;
                    assert(names[i] == n);
                } else {
                    assert(n == names.last());
                    assert(names[names.len() - 1] == n);
                }
            }
        }
        if forall|i: int| 0 <= i < names.len() ==> valid_name(#[trigger] names[i]) {
            assert forall|i: int| 0 <= i < init.len() implies valid_name(#[trigger] init[i]) by {
                assert(init[i] == names[i]);
            }
            assert(valid_name(names[names.len() - 1]));
        }
    }
}

/// Names without repetitions are left as they are.
pub proof fn lemma_dedup_of_distinct(names: Seq<Seq<char>>)
    requires
        names.no_duplicates(),
    ensures
        dedup(names) == names,
    decreases names.len(),
{
    if names.len() > 0 {
        let init = names.drop_last();
        lemma_dedup_of_distinct(init);
        lemma_dedup(init);
        if init.contains(names.last()) {
            let i = choose|i: int| 0 <= i < init.len() && init[i] == names.last();
            assert(names[i] == names[names.len() - 1]);
        }
        assert(init.push(names.last()) =~= names);
    } else {
        assert(dedup(names) =~= names);
    }
}

/// `common` keeps exactly the names that both hold, and keeps them valid.
pub proof fn lemma_common(a: Seq<Seq<char>>, b: Seq<Seq<char>>)
    ensures
        forall|n: Seq<char>| common(a, b).contains(n) <==> a.contains(n) && b.contains(n),
        valid_scopes(a) ==> valid_scopes(common(a, b)),
        common(a, b).len() <= a.len(),
    decreases a.len(),
{
    if a.len() > 0 {
        let init = a.drop_last();
        let head = common(init, b);
        lemma_common(init, b);
        assert forall|n: Seq<char>| common(a, b).contains(n) <==> a.contains(n) && b.contains(
            n,
        ) by {
            if a.contains(n) && b.contains(n) {
                let i = choose|i: int| 0 <= i < a.len() && a[i] == n;
                if i < init.len() {
                    assert(init[i] == n);
                    assert(init.contains(n));
                    let j = choose|j: int| 0 <= j < head.len() && head[j] == n;
                    if b.contains(a.last()) {
                        assert(head.push(a.last())[j] == n);
                    }
                } else {
                    assert(head.push(a.last())[head.len() as int] == n);
                }
            }
            if common(a, b).contains(n) {
                let j = choose|j: int| 0 <= j < common(a, b).len() && common(a, b)[j] == n;
                if j < head.len() {
                    assert(head[j] == n);
                    assert(head.contains(n));
                    assert(init.contains(n) && b.contains(n));
                    let i = choose|i: int| 0 <= i < init.len() && init[i] == n;
                    assert(a[i] == n);
                } else {
                    assert(a[a.len() - 1] == n);
                }
            }
        }
        if valid_scopes(a) {
            assert(init.no_duplicates());
            assert forall|i: int| 0 <= i < init.len() implies valid_name(#[trigger] init[i]) by {
                assert(init[i] == a[i]);
            }
            assert(valid_name(a[a.len() - 1]));
            if head.contains(a.last()) {
                assert(init.contains(a.last()));
                let i = choose|i: int| 0 <= i < init.len() && init[i] == a.last();
                assert(a[i] == a[a.len() - 1]);
            }
        }
    }
}

/// The names in one text, a single space between neighbours.
pub open spec fn joined(names: Seq<Seq<char>>) -> Seq<char>
    decreases names.len(),
{
    if names.len() == 0 {
        Seq::empty()
    } else if names.len() == 1 {
        names[0]
    } else {
        joined(names.drop_last()) + seq![' '] + names.last()
    }
}

/// Reading a text from the left: the words that a space has ended, and the
/// word that is still open.
pub open spec fn scanned(text: Seq<char>) -> (Seq<Seq<char>>, Seq<char>)
    decreases text.len(),
{
    if text.len() == 0 {
        (Seq::empty(), Seq::empty())
    } else {
        let before = scanned(text.drop_last());
        if text.last() == ' ' {
            (
                if before.1.len() > 0 {
                    before.0.push(before.1)
                } else {
                    before.0
                },
                Seq::empty(),
            )
        } else {
            (before.0, before.1.push(text.last()))
        }
    }
}

/// The words of a text: its longest stretches without a space, in order.
pub open spec fn words(text: Seq<char>) -> Seq<Seq<char>> {
    let read = scanned(text);
    if read.1.len() > 0 {
        read.0.push(read.1)
    } else {
        read.0
    }
}

proof fn lemma_scanned_word(text: Seq<char>, word: Seq<char>)
    requires
        !word.contains(' '),
    ensures
        scanned(text + word) == (scanned(text).0, scanned(text).1 + word),
    decreases word.len(),
{
    if word.len() == 0 {
        assert(text + word =~= text);
        assert(scanned(text).1 + word =~= scanned(text).1);
    } else {
        let init = word.drop_last();
        assert(!init.contains(' ')) by {
            if init.contains(' ') {
                let i = choose|i: int| 0 <= i < init.len() && init[i] == ' ';
                assert(word[i] == ' ');
            }
        }
        assert(word.last() != ' ') by {
            assert(word[word.len() - 1] == word.last());
        }
        lemma_scanned_word(text, init);
        assert((text + word).drop_last() =~= text + init);
        assert((text + word).last() == word.last());
        assert((scanned(text).1 + init).push(word.last()) =~= scanned(text).1 + word);
    }
}

proof fn lemma_scanned_joined(names: Seq<Seq<char>>)
    requires
        names.len() > 0,
        forall|i: int| 0 <= i < names.len() ==> valid_name(#[trigger] names[i]),
    ensures
        scanned(joined(names)) == (names.drop_last(), names.last()),
    decreases names.len(),
{
    let empty = Seq::<char>::empty();
    assert(scanned(empty) == (Seq::<Seq<char>>::empty(), empty));
    if names.len() == 1 {
        lemma_scanned_word(empty, names[0]);
        assert(empty + names[0] =~= names[0]);
        assert(names.drop_last() =~= Seq::<Seq<char>>::empty());
    } else {
        let init = names.drop_last();
        assert forall|i: int| 0 <= i < init.len() implies valid_name(#[trigger] init[i]) by {
            assert(init[i] == names[i]);
        }
        lemma_scanned_joined(init);
        let head = joined(init);
        let spaced = head + seq![' '];
        assert(spaced.drop_last() =~= head);
        assert(spaced.last() == ' ');
        assert(valid_name(init[init.len() - 1]));
        assert(init.drop_last().push(init.last()) =~= init);
        assert(scanned(spaced) == (init, empty));
        assert(valid_name(names[names.len() - 1]));
        lemma_scanned_word(spaced, names.last());
        assert(empty + names.last() =~= names.last());
    }
}

/// Reading back what was joined gives the names again.
pub proof fn lemma_words_of_joined(names: Seq<Seq<char>>)
    requires
        valid_scopes(names),
    ensures
        words(joined(names)) == names,
        dedup(words(joined(names))) == names,
{
    if names.len() == 0 {
        assert(words(joined(names)) =~= names);
    } else {
        lemma_scanned_joined(names);
        assert(valid_name(names[names.len() - 1]));
        assert(names.drop_last().push(names.last()) =~= names);
    }
    lemma_dedup_of_distinct(names);
}

/// Every word of a text is a valid name.
pub proof fn lemma_words_valid(text: Seq<char>)
    ensures
        forall|i: int| 0 <= i < scanned(text).0.len() ==> valid_name(#[trigger] scanned(text).0[i]),
        !scanned(text).1.contains(' '),
        forall|i: int| 0 <= i < words(text).len() ==> valid_name(#[trigger] words(text)[i]),
    decreases text.len(),
{
    if text.len() > 0 {
        lemma_words_valid(text.drop_last());
        let before = scanned(text.drop_last());
        if text.last() != ' ' {
            let word = before.1.push(text.last());
            if word.contains(' ') {
                let i = choose|i: int| 0 <= i < word.len() && word[i] == ' ';
                if i < before.1.len() {
                    assert(before.1[i] == ' ');
                }
            }
        }
    }
}

/// A set of scope names.
#[derive(Debug)]
pub struct ScopeSet {
    names: Vec<String>,
}

impl View for ScopeSet {
    type V = Seq<Seq<char>>;

    closed spec fn view(&self) -> Seq<Seq<char>> {
        texts(self.names@)
    }
}

/// Whether `name` is a valid scope name.
pub fn is_valid_name(name: &str) -> (r: bool)
    ensures
        r == valid_name(name@),
{
    let n = name.unicode_len();
    if n == 0 {
        return false;
    }
    let mut i: usize = 0;
    while i < n
        invariant
            n == name@.len(),
            i <= n,
            forall|j: int| 0 <= j < i ==> name@[j] != ' ',
        decreases n - i,
    {
        if name.get_char(i) == ' ' {
            assert(name@.contains(' '));
            return false;
        }
        i += 1;
    }
    true
}

fn holds(names: &Vec<String>, name: &String) -> (r: bool)
    ensures
        r == texts(names@).contains(name@),
{
    let mut i: usize = 0;
    while i < names.len()
        invariant
            i <= names@.len(),
            forall|j: int| 0 <= j < i ==> texts(names@)[j] != name@,
        decreases names@.len() - i,
    {
        if names[i] == *name {
            assert(texts(names@)[i as int] == name@);
            return true;
        }
        i += 1;
    }
    false
}

impl ScopeSet {
    #[verifier::type_invariant]
    spec fn well_formed(&self) -> bool {
        valid_scopes(texts(self.names@))
    }

    /// The set without names.
    pub fn new() -> (r: Self)
        ensures
            r@ == Seq::<Seq<char>>::empty(),
    {
        let r = ScopeSet { names: Vec::new() };
        assert(r@ =~= Seq::<Seq<char>>::empty());
        r
    }

    /// The set of the given names. A name that is empty or holds a space is
    /// refused as a malformed `scope`.
    pub fn from_names(names: &Vec<String>) -> (r: Result<Self, Error>)
        ensures
            match r {
                Ok(set) => set@ == dedup(texts(names@)) && valid_scopes(set@) && forall|i: int|
                    0 <= i < names@.len() ==> valid_name(#[trigger] texts(names@)[i]),
                Err(e) => (e matches Error::ValidationError { field } && field@ == "scope"@) && exists|
                    i: int,
                | 0 <= i < names@.len() && !valid_name(#[trigger] texts(names@)[i]),
            },
    {
        let mut out: Vec<String> = Vec::new();
        let mut i: usize = 0;
        assert(texts(names@).take(0) =~= Seq::<Seq<char>>::empty());
        while i < names.len()
            invariant
                i <= names@.len(),
                texts(out@) == dedup(texts(names@).take(i as int)),
                forall|j: int| 0 <= j < i ==> valid_name(#[trigger] texts(names@)[j]),
            decreases names@.len() - i,
        {
            if !is_valid_name(names[i].as_str()) {
                assert(!valid_name(texts(names@)[i as int]));
                return Err(Error::ValidationError { field: String::from_str("scope") });
            }
            let ghost before = texts(names@).take(i as int);
            let ghost after = texts(names@).take(i + 1);
            assert(after.drop_last() =~= before);
            assert(after.last() == names@[i as int]@);
            if !holds(&out, &names[i]) {
                let name = names[i].clone();
                out.push(name);
                assert(texts(out@) =~= dedup(before).push(after.last()));
            }
            i += 1;
        }
        proof {
            assert(texts(names@).take(i as int) =~= texts(names@));
            lemma_dedup(texts(names@));
        }
        Ok(ScopeSet { names: out })
    }

    /// The set of one name.
    pub fn single(name: &str) -> (r: Result<Self, Error>)
        ensures
            match r {
                Ok(set) => valid_name(name@) && set@ == seq![name@],
                Err(e) => !valid_name(name@) && (e matches Error::ValidationError { field }
                    && field@ == "scope"@),
            },
    {
        if !is_valid_name(name) {
            return Err(Error::ValidationError { field: String::from_str("scope") });
        }
        let mut names: Vec<String> = Vec::new();
        names.push(String::from_str(name));
        assert(texts(names@) =~= seq![name@]);
        Ok(ScopeSet { names })
    }

    /// How many names the set holds.
    pub fn len(&self) -> (n: usize)
        ensures
            n == self@.len(),
            valid_scopes(self@),
    {
        proof {
            use_type_invariant(self);
        }
        self.names.len()
    }

    /// Whether the set holds no name.
    pub fn is_empty(&self) -> (r: bool)
        ensures
            r == (self@.len() == 0),
    {
        self.names.len() == 0
    }

    /// Whether the set holds the name.
    pub fn contains(&self, name: &str) -> (r: bool)
        ensures
            r == self@.contains(name@),
    {
        let wanted = String::from_str(name);
        holds(&self.names, &wanted)
    }

    /// The names, in order.
    pub fn names(&self) -> (r: Vec<String>)
        ensures
            texts(r@) == self@,
            valid_scopes(self@),
    {
        proof {
            use_type_invariant(self);
        }
        let mut out: Vec<String> = Vec::new();
        let mut i: usize = 0;
        while i < self.names.len()
            invariant
                i <= self.names@.len(),
                texts(out@) == texts(self.names@).take(i as int),
            decreases self.names@.len() - i,
        {
            let ghost prev = out@;
            out.push(self.names[i].clone());
            assert(texts(out@) =~= texts(prev).push(self.names@[i as int]@));
            assert(texts(self.names@).take(i + 1) =~= texts(self.names@).take(i as int).push(
                self.names@[i as int]@,
            ));
            i += 1;
        }
        assert(texts(self.names@).take(i as int) =~= texts(self.names@));
        out
    }

    /// A copy of the set.
    pub fn duplicate(&self) -> (r: Self)
        ensures
            r@ == self@,
            valid_scopes(r@),
    {
        let names = self.names();
        ScopeSet { names }
    }

    /// Whether every name of this set is one of `other`.
    pub fn is_subset_of(&self, other: &ScopeSet) -> (r: bool)
        ensures
            r == within(self@, other@),
    {
        let mut i: usize = 0;
        while i < self.names.len()
            invariant
                i <= self.names@.len(),
                forall|j: int| 0 <= j < i ==> other@.contains(#[trigger] self@[j]),
            decreases self.names@.len() - i,
        {
            if !holds(&other.names, &self.names[i]) {
                assert(self@.contains(self@[i as int]));
                return false;
            }
            i += 1;
        }
        true
    }

    /// The names of this set that `other` holds too, in this set's order.
    pub fn intersect(&self, other: &ScopeSet) -> (r: Self)
        ensures
            r@ == common(self@, other@),
            valid_scopes(r@),
            within(r@, self@),
            within(r@, other@),
    {
        proof {
            use_type_invariant(self);
        }
        let mut out: Vec<String> = Vec::new();
        let mut i: usize = 0;
        assert(self@.take(0) =~= Seq::<Seq<char>>::empty());
        while i < self.names.len()
            invariant
                i <= self.names@.len(),
                texts(out@) == common(self@.take(i as int), other@),
            decreases self.names@.len() - i,
        {
            let ghost before = self@.take(i as int);
            let ghost after = self@.take(i + 1);
            assert(after.drop_last() =~= before);
            assert(after.last() == self.names@[i as int]@);
            if holds(&other.names, &self.names[i]) {
                out.push(self.names[i].clone());
                assert(texts(out@) =~= common(before, other@).push(after.last()));
            }
            i += 1;
        }
        proof {
            assert(self@.take(i as int) =~= self@);
            lemma_common(self@, other@);
        }
        ScopeSet { names: out }
    }

    /// The names in one text, a single space between neighbours.
    pub fn to_text(&self) -> (text: String)
        ensures
            text@ == joined(self@),
            dedup(words(text@)) == self@,
    {
        proof {
            use_type_invariant(self);
            reveal_strlit(" ");
            lemma_words_of_joined(self@);
        }
        let mut text = String::new();
        let mut i: usize = 0;
        assert(self@.take(0) =~= Seq::<Seq<char>>::empty());
        while i < self.names.len()
            invariant
                i <= self.names@.len(),
                text@ == joined(self@.take(i as int)),
                " "@ == seq![' '],
            decreases self.names@.len() - i,
        {
            let ghost before = self@.take(i as int);
            let ghost after = self@.take(i + 1);
            assert(after.drop_last() =~= before);
            assert(after.last() == self.names@[i as int]@);
            if i > 0 {
                text.append(" ");
            }
            text.append(self.names[i].as_str());
            assert(text@ =~= joined(after)) by {
                if i == 0 {
                    assert(after[0] == after.last());
                }
            }
            i += 1;
        }
        assert(self@.take(i as int) =~= self@);
        assert(" "@.len() == 1 && " "@[0] == ' ');
        text
    }

    /// The set of the words of a text.
    pub fn parse(text: &str) -> (set: Self)
        ensures
            set@ == dedup(words(text@)),
            valid_scopes(set@),
    {
        let n = text.unicode_len();
        let mut found: Vec<String> = Vec::new();
        let mut start: usize = 0;
        let mut i: usize = 0;
        assert(text@.take(0) =~= Seq::<char>::empty());
        assert(text@.subrange(0, 0) =~= Seq::<char>::empty());
        while i < n
            invariant
                n == text@.len(),
                start <= i <= n,
                texts(found@) == scanned(text@.take(i as int)).0,
                text@.subrange(start as int, i as int) == scanned(text@.take(i as int)).1,
            decreases n - i,
        {
            let ghost before = text@.take(i as int);
            let ghost after = text@.take(i + 1);
            assert(after.drop_last() =~= before);
            assert(after.last() == text@[i as int]);
            if text.get_char(i) == ' ' {
                if i > start {
                    let word = String::from_str(text.substring_char(start, i));
                    found.push(word);
                    assert(texts(found@) =~= scanned(before).0.push(scanned(before).1));
                }
                start = i + 1;
                assert(text@.subrange(start as int, i + 1) =~= Seq::<char>::empty());
            } else {
                assert(text@.subrange(start as int, i + 1) =~= text@.subrange(
                    start as int,
                    i as int,
                ).push(text@[i as int]));
            }
            i += 1;
        }
        assert(text@.take(n as int) =~= text@);
        if n > start {
            let word = String::from_str(text.substring_char(start, n));
            found.push(word);
            assert(texts(found@) =~= scanned(text@).0.push(scanned(text@).1));
        }
        assert(texts(found@) == words(text@));
        proof {
            lemma_words_valid(text@);
        }
        match ScopeSet::from_names(&found) {
            Ok(set) => set,
            Err(_) => ScopeSet::new(),
        }
    }

    /// The names of this set, then those of `other` that this set lacks.
    pub fn union(&self, other: &ScopeSet) -> (r: Self)
        ensures
            r@ == merged(self@, other@),
            valid_scopes(r@),
            forall|n: Seq<char>| r@.contains(n) <==> self@.contains(n) || other@.contains(n),
    {
        proof {
            use_type_invariant(self);
            use_type_invariant(other);
        }
        let mut out = self.names();
        let mut i: usize = 0;
        proof {
            assert((self@ + other@.take(0)) =~= self@);
            lemma_dedup_of_distinct(self@);
        }
        while i < other.names.len()
            invariant
                i <= other.names@.len(),
                texts(out@) == dedup(self@ + other@.take(i as int)),
            decreases other.names@.len() - i,
        {
            let ghost before = self@ + other@.take(i as int);
            let ghost after = self@ + other@.take(i + 1);
            assert(after.drop_last() =~= before);
            assert(after.last() == other.names@[i as int]@);
            if !holds(&out, &other.names[i]) {
                out.push(other.names[i].clone());
                assert(texts(out@) =~= dedup(before).push(after.last()));
            }
            i += 1;
        }
        proof {
            assert(other@.take(i as int) =~= other@);
            let all = self@ + other@;
            lemma_dedup(all);
            assert forall|k: int| 0 <= k < all.len() implies valid_name(#[trigger] all[k]) by {
                if k < self@.len() {
                    assert(all[k] == self@[k]);
                } else {
                    assert(all[k] == other@[k - self@.len()]);
                }
            }
            assert forall|n: Seq<char>| all.contains(n) <==> self@.contains(n) || other@.contains(
                n,
            ) by {
                if all.contains(n) {
                    let k = choose|k: int| 0 <= k < all.len() && all[k] == n;
                    if k < self@.len() {
                        assert(self@[k] == n);
                    } else {
                        assert(other@[k - self@.len()] == n);
                    }
                }
                if self@.contains(n) {
                    let k = choose|k: int| 0 <= k < self@.len() && self@[k] == n;
                    assert(all[k] == n);
                }
                if other@.contains(n) {
                    let k = choose|k: int| 0 <= k < other@.len() && other@[k] == n;
                    assert(all[k + self@.len()] == n);
                }
            }
            assert forall|n: Seq<char>| dedup(all).contains(n) <==> self@.contains(n)
                || other@.contains(n) by {
                assert(dedup(all).contains(n) <==> all.contains(n));
            }
            assert(texts(out@) == dedup(all));
        }
        ScopeSet { names: out }
    }
}

} // verus!
