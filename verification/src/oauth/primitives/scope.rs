//! Scopes: sets of tokens, written as a list of tokens separated by spaces.

use vstd::prelude::*;
use vstd::string::StringExecFns;

verus! {

/// A character that may stand in a scope token: `!`, `#` to `[`, `]` to `~`.
pub open spec fn is_token_char(c: char) -> bool {
    ||| c == '\x21'
    ||| '\x23' <= c <= '\x5b'
    ||| '\x5d' <= c <= '\x7e'
}

/// A character that may stand in a scope text: a token character or the separating space.
pub open spec fn is_scope_char(c: char) -> bool {
    is_token_char(c) || c == ' '
}

/// A scope token: one or more token characters.
pub open spec fn is_token(token: Seq<char>) -> bool {
    &&& token.len() > 0
    &&& forall|i: int| 0 <= i < token.len() ==> is_token_char(#[trigger] token[i])
}

/// A text that holds nothing but token characters and spaces.
pub open spec fn is_scope_text(text: Seq<char>) -> bool {
    forall|i: int| 0 <= i < text.len() ==> is_scope_char(#[trigger] text[i])
}

/// `text[from..to]` is a run: it is not empty, holds no space, and cannot be made
/// longer at either end without taking in a space.
pub open spec fn is_run(text: Seq<char>, from: int, to: int) -> bool {
    &&& 0 <= from < to <= text.len()
    &&& forall|k: int| from <= k < to ==> #[trigger] text[k] != ' '
    &&& (from == 0 || text[from - 1] == ' ')
    &&& (to == text.len() || text[to] == ' ')
}

/// The tokens written in `text`: its runs.
pub open spec fn tokens_of(text: Seq<char>) -> Set<Seq<char>> {
    Set::new(
        |token: Seq<char>|
            exists|from: int, to: int|
                is_run(text, from, to) && #[trigger] text.subrange(from, to) == token,
    )
}

/// Dictionary order on texts, character by character; a proper prefix comes first.
pub open spec fn lex_lt(a: Seq<char>, b: Seq<char>) -> bool
    decreases a.len(),
{
    if b.len() == 0 {
        false
    } else if a.len() == 0 {
        true
    } else if a[0] != b[0] {
        a[0] < b[0]
    } else {
        lex_lt(a.drop_first(), b.drop_first())
    }
}

/// No text comes before itself.
pub proof fn lemma_lex_irreflexive(a: Seq<char>)
    ensures
        !lex_lt(a, a),
    decreases a.len(),
{
    if a.len() > 0 {
        lemma_lex_irreflexive(a.drop_first());
    }
}

/// Of two different texts one comes before the other.
pub proof fn lemma_lex_total(a: Seq<char>, b: Seq<char>)
    ensures
        a == b || lex_lt(a, b) || lex_lt(b, a),
    decreases a.len(),
{
    if a.len() == 0 || b.len() == 0 {
        if a.len() == 0 && b.len() == 0 {
            assert(a =~= b);
        }
    } else if a[0] == b[0] {
        lemma_lex_total(a.drop_first(), b.drop_first());
        if a.drop_first() == b.drop_first() {
            assert(a =~= seq![a[0]] + a.drop_first());
            assert(b =~= seq![b[0]] + b.drop_first());
        }
    }
}

/// The order is transitive.
pub proof fn lemma_lex_transitive(a: Seq<char>, b: Seq<char>, c: Seq<char>)
    requires
        lex_lt(a, b),
        lex_lt(b, c),
    ensures
        lex_lt(a, c),
    decreases a.len(),
{
    if a.len() > 0 && a[0] == b[0] && b[0] == c[0] {
        lemma_lex_transitive(a.drop_first(), b.drop_first(), c.drop_first());
    }
}

/// A text does not come both before and after another.
pub proof fn lemma_lex_asymmetric(a: Seq<char>, b: Seq<char>)
    requires
        lex_lt(a, b),
    ensures
        !lex_lt(b, a),
{
    if lex_lt(b, a) {
        lemma_lex_transitive(a, b, a);
        lemma_lex_irreflexive(a);
    }
}

/// Whether `a` comes before `b` in dictionary order.
fn precedes(a: &str, b: &str) -> (before: bool)
    requires
        a.is_ascii(),
        b.is_ascii(),
    ensures
        before == lex_lt(a@, b@),
{
    let a_len = a.unicode_len();
    let b_len = b.unicode_len();
    let mut i: usize = 0;
    proof {
        assert(a@.skip(0) =~= a@);
        assert(b@.skip(0) =~= b@);
    }
    while i < a_len && i < b_len
        invariant
            i <= a_len == a@.len(),
            i <= b_len == b@.len(),
            a.is_ascii(),
            b.is_ascii(),
            lex_lt(a@, b@) == lex_lt(a@.skip(i as int), b@.skip(i as int)),
        decreases a_len - i,
    {
        let x = a.get_ascii(i);
        let y = b.get_ascii(i);
        if x != y {
            return x < y;
        }
        proof {
            assert(a@.skip(i as int).drop_first() =~= a@.skip(i + 1));
            assert(b@.skip(i as int).drop_first() =~= b@.skip(i + 1));
        }
        i += 1;
    }
    i < b_len
}

/// The texts that a list of strings holds, in the same order.
pub open spec fn texts(strings: Seq<String>) -> Seq<Seq<char>> {
    Seq::new(strings.len(), |i: int| strings[i]@)
}

/// A list of tokens in strictly ascending dictionary order, so that none occurs twice.
pub open spec fn is_token_list(list: Seq<Seq<char>>) -> bool {
    &&& forall|i: int| 0 <= i < list.len() ==> is_token(#[trigger] list[i])
    &&& forall|i: int, j: int| 0 <= i < j < list.len() ==> lex_lt(#[trigger] list[i], #[trigger] list[j])
}

/// A set of scope tokens.
///
/// The tokens are kept in ascending dictionary order, which makes the written form of
/// a scope depend on nothing but the set.
#[derive(Debug, PartialEq, Eq)]
pub struct Scope {
    tokens: Vec<String>,
}

impl View for Scope {
    type V = Set<Seq<char>>;

    closed spec fn view(&self) -> Set<Seq<char>> {
        self.list().to_set()
    }
}

impl Scope {
    #[verifier::type_invariant]
    spec fn well_formed(&self) -> bool {
        is_token_list(self.list())
    }

    /// The tokens of the scope in the order in which they are written.
    pub closed spec fn list(&self) -> Seq<Seq<char>> {
        texts(self.tokens@)
    }

    /// The scope without any token.
    pub fn new() -> (scope: Scope)
        ensures
            scope@ == Set::<Seq<char>>::empty(),
            scope.list() == Seq::<Seq<char>>::empty(),
    {
        let scope = Scope { tokens: Vec::new() };
        assert(scope.list() =~= Seq::<Seq<char>>::empty());
        assert(scope@ =~= Set::<Seq<char>>::empty());
        scope
    }

    pub fn is_empty(&self) -> (empty: bool)
        ensures
            empty == (self@ == Set::<Seq<char>>::empty()),
            empty == (self.list().len() == 0),
    {
        let empty = self.tokens.len() == 0;
        proof {
            if empty {
                assert(self@ =~= Set::<Seq<char>>::empty());
            } else {
                assert(self.list().contains(self.list()[0]));
                assert(self@.contains(self.list()[0]));
            }
        }
        empty
    }

    /// Number of tokens.
    pub fn len(&self) -> (count: usize)
        ensures
            count == self.list().len(),
            count == self@.len(),
    {
        proof {
            use_type_invariant(self);
            lemma_token_list_no_duplicates(self.list());
            self.list().unique_seq_to_set();
        }
        self.tokens.len()
    }

    /// Whether `token` is one of the tokens of the scope.
    pub fn contains(&self, token: &str) -> (found: bool)
        ensures
            found == self@.contains(token@),
    {
        let mut i: usize = 0;
        while i < self.tokens.len()
            invariant
                i <= self.tokens.len(),
                forall|k: int| 0 <= k < i ==> self.list()[k] != token@,
            decreases self.tokens.len() - i,
        {
            if self.tokens[i].as_str().eq(token) {
                assert(self.list()[i as int] == token@);
                return true;
            }
            i += 1;
        }
        false
    }

    /// The scope with `token` added to it.
    pub fn with_token(self, token: &str) -> (grown: Scope)
        requires
            is_token(token@),
        ensures
            grown@ == self@.insert(token@),
    {
        proof {
            use_type_invariant(&self);
            lemma_token_is_ascii(token@);
        }
        let count = self.tokens.len();
        let mut at: usize = 0;
        let mut searching = true;
        while at < count && searching
            invariant
                at <= count == self.tokens.len(),
                is_token_list(self.list()),
                token.is_ascii(),
                forall|k: int| 0 <= k < at ==> lex_lt(#[trigger] self.list()[k], token@),
                !searching ==> at < count && !lex_lt(self.list()[at as int], token@),
            decreases count - at, searching as int,
        {
            proof {
                lemma_token_is_ascii(self.list()[at as int]);
            }
            if precedes(self.tokens[at].as_str(), token) {
                at += 1;
            } else {
                searching = false;
            }
        }
        if at < count && self.tokens[at].as_str().eq(token) {
            proof {
                assert(self.list()[at as int] == token@);
                assert(self@.insert(token@) =~= self@);
            }
            return self;
        }
        let ghost before = self.list();
        proof {
            assert forall|j: int| at <= j < before.len() implies lex_lt(token@, #[trigger] before[j]) by {
                lemma_lex_total(before[at as int], token@);
                if at < j {
                    lemma_lex_transitive(token@, before[at as int], before[j]);
                }
            }
        }
        let mut tokens = self.tokens;
        tokens.insert(at, token.to_owned());
        proof {
            assert(texts(tokens@) =~= before.insert(at as int, token@));
            lemma_insert_to_set(before, at as int, token@);
        }
        Scope { tokens }
    }

    /// Whether every token of `other` is a token of this scope.
    pub fn covers(&self, other: &Scope) -> (covered: bool)
        ensures
            covered == other@.subset_of(self@),
    {
        let mut i: usize = 0;
        while i < other.tokens.len()
            invariant
                i <= other.tokens.len(),
                forall|k: int| 0 <= k < i ==> self@.contains(#[trigger] other.list()[k]),
            decreases other.tokens.len() - i,
        {
            if !self.contains(other.tokens[i].as_str()) {
                assert(other@.contains(other.list()[i as int]));
                return false;
            }
            i += 1;
        }
        true
    }

    /// The scope that holds the tokens of both scopes.
    pub fn union(&self, other: &Scope) -> (both: Scope)
        ensures
            both@ == self@.union(other@),
    {
        let mut both = self.clone();
        let mut i: usize = 0;
        proof {
            use_type_invariant(other);
            assert(both@ =~= self@.union(other.list().take(0).to_set()));
        }
        while i < other.tokens.len()
            invariant
                i <= other.tokens.len(),
                is_token_list(other.list()),
                both@ == self@.union(other.list().take(i as int).to_set()),
            decreases other.tokens.len() - i,
        {
            assert(is_token(other.list()[i as int]));
            both = both.with_token(other.tokens[i].as_str());
            proof {
                let list = other.list();
                assert(list.take(i + 1) =~= list.take(i as int).push(list[i as int]));
                lemma_push_to_set(list.take(i as int), list[i as int]);
                assert(both@ =~= self@.union(list.take(i + 1).to_set()));
            }
            i += 1;
        }
        proof {
            assert(other.list().take(i as int) =~= other.list());
        }
        both
    }
}

impl Clone for Scope {
    fn clone(&self) -> (copy: Scope)
        ensures
            copy@ == self@,
            copy.list() == self.list(),
    {
        proof {
            use_type_invariant(self);
        }
        let mut tokens: Vec<String> = Vec::new();
        let mut i: usize = 0;
        while i < self.tokens.len()
            invariant
                i <= self.tokens.len(),
                tokens.len() == i,
                texts(tokens@) == self.list().take(i as int),
            decreases self.tokens.len() - i,
        {
            let ghost copied = texts(tokens@);
            tokens.push(self.tokens[i].clone());
            proof {
                assert forall|k: int| 0 <= k < i + 1 implies texts(tokens@)[k] == self.list()[k] by {
                    if k < i {
                        assert(texts(tokens@)[k] == copied[k]);
                        assert(copied[k] == self.list().take(i as int)[k]);
                    }
                }
                assert(texts(tokens@) =~= self.list().take(i + 1));
            }
            i += 1;
        }
        proof {
            assert(self.list().take(i as int) =~= self.list());
        }
        Scope { tokens }
    }
}

/// A scope text could not be read.
#[derive(Clone, Copy, Debug, PartialEq, Eq)]
pub enum ParseScopeErr {
    /// The text holds this character, which is neither a token character nor a space.
    InvalidCharacter(char),
}

/// `at` is the place of the first character of `text` that is no scope character.
pub open spec fn is_first_invalid(text: Seq<char>, at: int) -> bool {
    &&& 0 <= at < text.len()
    &&& !is_scope_char(text[at])
    &&& forall|k: int| 0 <= k < at ==> is_scope_char(#[trigger] text[k])
}

/// The runs of `text` that end at or before `end`.
pub open spec fn runs_before(text: Seq<char>, end: int) -> Set<Seq<char>> {
    Set::new(
        |token: Seq<char>|
            exists|from: int, to: int|
                is_run(text, from, to) && to <= end && #[trigger] text.subrange(from, to) == token,
    )
}

/// No run ends right behind a space.
proof fn lemma_runs_skip_space(text: Seq<char>, at: int)
    requires
        0 <= at < text.len(),
        text[at] == ' ',
    ensures
        runs_before(text, at + 1) == runs_before(text, at),
{
    assert forall|token: Seq<char>| runs_before(text, at + 1).contains(token) implies runs_before(
        text,
        at,
    ).contains(token) by {
        let (from, to) = choose|from: int, to: int|
            is_run(text, from, to) && to <= at + 1 && #[trigger] text.subrange(from, to) == token;
        if to == at + 1 {
            assert(text[at] != ' ');
        }
    }
    assert(runs_before(text, at + 1) =~= runs_before(text, at));
}

/// The one run that ends behind `from` and at or before `next` is `text[from..to]`.
proof fn lemma_runs_add_run(text: Seq<char>, from: int, to: int, next: int)
    requires
        is_run(text, from, to),
        next == to || (next == to + 1 && to < text.len()),
    ensures
        runs_before(text, next) == runs_before(text, from).insert(text.subrange(from, to)),
{
    let grown = runs_before(text, from).insert(text.subrange(from, to));
    assert forall|token: Seq<char>| runs_before(text, next).contains(token) implies grown.contains(
        token,
    ) by {
        let (a, b) = choose|a: int, b: int|
            is_run(text, a, b) && b <= next && #[trigger] text.subrange(a, b) == token;
        if b > from {
            if b == to + 1 {
                assert(text[to] != ' ');
            }
            if b < to {
                assert(text[b] != ' ');
            }
            assert(b == to);
            if a > from {
                assert(text[a - 1] != ' ');
            }
            if a < from {
                assert(text[from - 1] != ' ');
            }
            assert(a == from);
        }
    }
    assert forall|token: Seq<char>| grown.contains(token) implies runs_before(text, next).contains(
        token,
    ) by {
        if token == text.subrange(from, to) {
            assert(is_run(text, from, to) && to <= next && text.subrange(from, to) == token);
        } else {
            let (a, b) = choose|a: int, b: int|
                is_run(text, a, b) && b <= from && #[trigger] text.subrange(a, b) == token;
            assert(is_run(text, a, b) && b <= next && text.subrange(a, b) == token);
        }
    }
    assert(runs_before(text, next) =~= grown);
}

/// Whether `c` is a character that may stand in a scope text.
fn scope_char(c: char) -> (valid: bool)
    ensures
        valid == is_scope_char(c),
{
    let code = c as u32;
    code == 0x20 || code == 0x21 || (0x23 <= code && code <= 0x5b) || (0x5d <= code && code <= 0x7e)
}

impl Scope {
    /// Reads a scope from its written form: tokens separated by spaces.
    ///
    /// A text that holds anything but token characters and spaces is refused, with the
    /// first such character. Any number of spaces may separate two tokens, and a token
    /// written twice counts once.
    pub fn from_str(src: &str) -> (parsed: Result<Scope, ParseScopeErr>)
        ensures
            parsed is Ok <==> is_scope_text(src@),
            parsed matches Ok(scope) ==> scope@ == tokens_of(src@),
            parsed matches Err(ParseScopeErr::InvalidCharacter(c)) ==> exists|at: int|
                is_first_invalid(src@, at) && src@[at] == c,
    {
        let len = src.unicode_len();
        if !src.is_ascii() {
            let mut i: usize = 0;
            while i < len
                invariant
                    i <= len == src@.len(),
                    forall|k: int| 0 <= k < i ==> is_scope_char(#[trigger] src@[k]),
                decreases len - i,
            {
                let c = src.get_char(i);
                if !scope_char(c) {
                    assert(is_first_invalid(src@, i as int));
                    return Err(ParseScopeErr::InvalidCharacter(c));
                }
                i += 1;
            }
            proof {
                assert forall|k: int| 0 <= k < src@.len() implies '\0' <= #[trigger] src@[k]
                    <= '\u{7f}' by {
                    assert(is_scope_char(src@[k]));
                }
                assert(false);
            }
            return Ok(Scope::new());
        }
        let mut scope = Scope::new();
        let mut i: usize = 0;
        proof {
            assert(runs_before(src@, 0) =~= Set::<Seq<char>>::empty());
        }
        while i < len
            invariant
                i <= len == src@.len(),
                src.is_ascii(),
                forall|k: int| 0 <= k < i ==> is_scope_char(#[trigger] src@[k]),
                i == 0 || i == len || src@[i - 1] == ' ',
                scope@ == runs_before(src@, i as int),
            decreases len - i,
        {
            let c = src.get_ascii(i) as char;
            assert(c == src@[i as int]);
            if !scope_char(c) {
                assert(is_first_invalid(src@, i as int));
                return Err(ParseScopeErr::InvalidCharacter(c));
            }
            if c == ' ' {
                proof {
                    lemma_runs_skip_space(src@, i as int);
                }
                i += 1;
            } else {
                let from = i;
                let mut to = i + 1;
                let mut inside = true;
                while to < len && inside
                    invariant
                        from < to <= len == src@.len(),
                        src.is_ascii(),
                        forall|k: int| 0 <= k < from ==> is_scope_char(#[trigger] src@[k]),
                        forall|k: int| from <= k < to ==> is_token_char(#[trigger] src@[k]),
                        !inside ==> to < len && src@[to as int] == ' ',
                    decreases len - to, inside as int,
                {
                    let c = src.get_ascii(to) as char;
                    assert(c == src@[to as int]);
                    if !scope_char(c) {
                        assert(is_first_invalid(src@, to as int));
                        return Err(ParseScopeErr::InvalidCharacter(c));
                    }
                    if c == ' ' {
                        inside = false;
                    } else {
                        to += 1;
                    }
                }
                let token = src.substring_ascii(from, to);
                let next = if to < len {
                    to + 1
                } else {
                    to
                };
                proof {
                    assert(is_run(src@, from as int, to as int));
                    lemma_runs_add_run(src@, from as int, to as int, next as int);
                }
                scope = scope.with_token(token);
                i = next;
            }
        }
        proof {
            assert(runs_before(src@, len as int) =~= tokens_of(src@));
        }
        Ok(scope)
    }
}

/// The tokens of `list` written one after the other, with one space between two.
pub open spec fn joined(list: Seq<Seq<char>>) -> Seq<char>
    decreases list.len(),
{
    if list.len() == 0 {
        Seq::empty()
    } else if list.len() == 1 {
        list[0]
    } else {
        joined(list.drop_last()) + seq![' '] + list.last()
    }
}

impl Scope {
    /// The tokens of the scope in ascending dictionary order.
    pub fn tokens(&self) -> (tokens: Vec<String>)
        ensures
            texts(tokens@) == self.list(),
            is_token_list(self.list()),
            self.list().to_set() == self@,
    {
        proof {
            use_type_invariant(self);
        }
        self.clone().tokens
    }

    /// The written form of the scope: its tokens in ascending dictionary order,
    /// separated by single spaces.
    pub fn to_string(&self) -> (text: String)
        ensures
            text@ == joined(self.list()),
    {
        let mut text = String::new();
        let mut i: usize = 0;
        proof {
            assert(self.list().take(0) =~= Seq::<Seq<char>>::empty());
        }
        while i < self.tokens.len()
            invariant
                i <= self.tokens.len(),
                text@ == joined(self.list().take(i as int)),
            decreases self.tokens.len() - i,
        {
            proof {
                let list = self.list();
                assert(list.take(i + 1).drop_last() =~= list.take(i as int));
                assert(list.take(i + 1).last() == list[i as int]);
                assert(seq![' '] =~= " "@) by {
                    reveal_strlit(" ");
                }
            }
            if i > 0 {
                text.append(" ");
            }
            text.append(self.tokens[i].as_str());
            proof {
                let list = self.list();
                if i == 0 {
                    assert(text@ =~= list[0]);
                }
            }
            i += 1;
        }
        proof {
            assert(self.list().take(i as int) =~= self.list());
        }
        text
    }
}

/// Token characters are ASCII characters.
pub proof fn lemma_token_is_ascii(token: Seq<char>)
    requires
        is_token(token),
    ensures
        vstd::utf8::is_ascii_chars(token),
{
    assert forall|i: int| 0 <= i < token.len() implies '\0' <= #[trigger] token[i] <= '\u{7f}' by {
        assert(is_token_char(token[i]));
    }
}

/// A token list holds no token twice.
pub proof fn lemma_token_list_no_duplicates(list: Seq<Seq<char>>)
    requires
        is_token_list(list),
    ensures
        list.no_duplicates(),
{
    assert forall|i: int, j: int| 0 <= i < list.len() && 0 <= j < list.len() && i != j implies list[i]
        != list[j] by {
        if i < j {
            assert(lex_lt(list[i], list[j]));
            lemma_lex_irreflexive(list[i]);
        } else {
            assert(lex_lt(list[j], list[i]));
            lemma_lex_irreflexive(list[j]);
        }
    }
}

/// Two token lists that hold the same tokens are the same list.
pub proof fn lemma_token_list_is_determined(a: Seq<Seq<char>>, b: Seq<Seq<char>>)
    requires
        is_token_list(a),
        is_token_list(b),
        a.to_set() == b.to_set(),
    ensures
        a == b,
    decreases a.len(),
{
    lemma_token_list_no_duplicates(a);
    lemma_token_list_no_duplicates(b);
    a.unique_seq_to_set();
    b.unique_seq_to_set();
    if a.len() == 0 {
        assert(a =~= b);
    } else {
        let last = a.len() - 1;
        assert(a.to_set().contains(a[last]));
        assert(b.contains(a[last]));
        let j = choose|j: int| 0 <= j < b.len() && b[j] == a[last];
        assert(b.to_set().contains(b[last]));
        assert(a.contains(b[last]));
        let i = choose|i: int| 0 <= i < a.len() && a[i] == b[last];
        if j < last && i < last {
            assert(lex_lt(b[j], b[last]));
            assert(lex_lt(a[i], a[last]));
            lemma_lex_asymmetric(a[last], b[last]);
        }
        assert(a[last] == b[last]);
        let shorter_a = a.drop_last();
        let shorter_b = b.drop_last();
        assert forall|token: Seq<char>| shorter_a.to_set().contains(token) <==> shorter_b.to_set().contains(
            token,
        ) by {
            if shorter_a.contains(token) {
                let m = choose|m: int| 0 <= m < shorter_a.len() && shorter_a[m] == token;
                assert(a[m] == token);
                assert(a.to_set().contains(token));
                assert(b.contains(token));
                let k = choose|k: int| 0 <= k < b.len() && b[k] == token;
                assert(k != last);
                assert(shorter_b[k] == token);
            }
            if shorter_b.contains(token) {
                let m = choose|m: int| 0 <= m < shorter_b.len() && shorter_b[m] == token;
                assert(b[m] == token);
                assert(b.to_set().contains(token));
                assert(a.contains(token));
                let k = choose|k: int| 0 <= k < a.len() && a[k] == token;
                assert(k != last);
                assert(shorter_a[k] == token);
            }
        }
        assert(shorter_a.to_set() =~= shorter_b.to_set());
        lemma_token_list_is_determined(shorter_a, shorter_b);
        assert(a =~= shorter_a.push(a[last]));
        assert(b =~= shorter_b.push(b[last]));
    }
}

/// The written form of a scope depends on nothing but the set of its tokens.
pub proof fn law_written_form_is_canonical(a: Scope, b: Scope)
    requires
        is_token_list(a.list()),
        is_token_list(b.list()),
        a@ == b@,
    ensures
        joined(a.list()) == joined(b.list()),
{
    lemma_token_list_is_determined(a.list(), b.list());
}

/// A token is the one token written in itself.
proof fn lemma_tokens_of_token(token: Seq<char>)
    requires
        is_token(token),
    ensures
        tokens_of(token) == set![token],
{
    assert forall|k: int| 0 <= k < token.len() implies #[trigger] token[k] != ' ' by {
        assert(is_token_char(token[k]));
    }
    assert forall|other: Seq<char>| tokens_of(token).contains(other) implies other == token by {
        let (a, b) = choose|a: int, b: int|
            is_run(token, a, b) && #[trigger] token.subrange(a, b) == other;
        if a > 0 {
            assert(token[a - 1] != ' ');
        }
        if b < token.len() {
            assert(token[b] != ' ');
        }
        assert(token.subrange(0, token.len() as int) =~= token);
    }
    assert(is_run(token, 0, token.len() as int));
    assert(token.subrange(0, token.len() as int) =~= token);
    assert(tokens_of(token).contains(token));
    assert(tokens_of(token) =~= set![token]);
}

/// Writing a space and a token behind a text adds the token to the tokens written
/// in the text.
proof fn lemma_tokens_of_appended(text: Seq<char>, token: Seq<char>)
    requires
        is_token(token),
    ensures
        tokens_of(text + seq![' '] + token) == tokens_of(text).insert(token),
{
    let whole = text + seq![' '] + token;
    let n = text.len() as int;
    let end = whole.len() as int;
    assert(whole[n] == ' ');
    assert forall|k: int| n < k < end implies #[trigger] whole[k] != ' ' by {
        assert(whole[k] == token[k - n - 1]);
        assert(is_token_char(token[k - n - 1]));
    }
    assert forall|k: int| 0 <= k < n implies #[trigger] whole[k] == text[k] by {}
    assert forall|other: Seq<char>| tokens_of(whole).contains(other) implies tokens_of(text).insert(
        token,
    ).contains(other) by {
        let (a, b) = choose|a: int, b: int|
            is_run(whole, a, b) && #[trigger] whole.subrange(a, b) == other;
        if b <= n {
            assert forall|k: int| a <= k < b implies #[trigger] text[k] != ' ' by {
                assert(whole[k] != ' ');
            }
            if a > 0 {
                assert(whole[a - 1] == text[a - 1]);
            }
            if b < n {
                assert(whole[b] == text[b]);
            }
            assert(is_run(text, a, b));
            assert(text.subrange(a, b) =~= whole.subrange(a, b));
        } else {
            if a <= n {
                assert(whole[n] != ' ');
            }
            if a > n + 1 {
                assert(whole[a - 1] != ' ');
            }
            if b < end {
                assert(whole[b] != ' ');
            }
            assert(whole.subrange(n + 1, end) =~= token);
        }
    }
    assert forall|other: Seq<char>| tokens_of(text).insert(token).contains(other) implies tokens_of(
        whole,
    ).contains(other) by {
        if tokens_of(text).contains(other) {
            let (a, b) = choose|a: int, b: int|
                is_run(text, a, b) && #[trigger] text.subrange(a, b) == other;
            assert forall|k: int| a <= k < b implies #[trigger] whole[k] != ' ' by {
                assert(text[k] != ' ');
            }
            if a > 0 {
                assert(whole[a - 1] == text[a - 1]);
            }
            if b < n {
                assert(whole[b] == text[b]);
            }
            assert(is_run(whole, a, b));
            assert(whole.subrange(a, b) =~= text.subrange(a, b));
        } else {
            assert(is_run(whole, n + 1, end));
            assert(whole.subrange(n + 1, end) =~= token);
        }
    }
    assert(tokens_of(whole) =~= tokens_of(text).insert(token));
}

/// What is written of a list of tokens is a scope text, and the tokens written in
/// it are those of the list.
pub proof fn lemma_joined_reads_back(list: Seq<Seq<char>>)
    requires
        forall|i: int| 0 <= i < list.len() ==> is_token(#[trigger] list[i]),
    ensures
        is_scope_text(joined(list)),
        tokens_of(joined(list)) == list.to_set(),
    decreases list.len(),
{
    if list.len() == 0 {
        assert(tokens_of(joined(list)) =~= list.to_set());
    } else if list.len() == 1 {
        lemma_tokens_of_token(list[0]);
        assert(list.to_set() =~= set![list[0]]) by {
            assert(list.contains(list[0]));
        }
        assert forall|k: int| 0 <= k < list[0].len() implies is_scope_char(#[trigger] list[0][k]) by {
            assert(is_token_char(list[0][k]));
        }
    } else {
        let init = list.drop_last();
        let last = list.last();
        assert(is_token(last));
        assert forall|i: int| 0 <= i < init.len() implies is_token(#[trigger] init[i]) by {
            assert(init[i] == list[i]);
        }
        lemma_joined_reads_back(init);
        lemma_tokens_of_appended(joined(init), last);
        assert(list =~= init.push(last));
        lemma_push_to_set(init, last);
        let whole = joined(list);
        let n = joined(init).len() as int;
        assert forall|k: int| 0 <= k < whole.len() implies is_scope_char(#[trigger] whole[k]) by {
            if k < n {
                assert(whole[k] == joined(init)[k]);
            } else if k > n {
                assert(whole[k] == last[k - n - 1]);
                assert(is_token_char(last[k - n - 1]));
            }
        }
    }
}

/// Reading the written form of a scope gives the scope back.
pub proof fn law_written_scope_reads_back(scope: Scope)
    requires
        is_token_list(scope.list()),
    ensures
        is_scope_text(joined(scope.list())),
        tokens_of(joined(scope.list())) == scope@,
{
    lemma_joined_reads_back(scope.list());
}

/// Putting an element into a list adds it to the set of the list's elements.
pub proof fn lemma_insert_to_set<A>(list: Seq<A>, at: int, element: A)
    requires
        0 <= at <= list.len(),
    ensures
        list.insert(at, element).to_set() == list.to_set().insert(element),
{
    let longer = list.insert(at, element);
    assert forall|a: A| longer.to_set().contains(a) <==> list.to_set().insert(element).contains(a) by {
        if longer.contains(a) {
            let i = choose|i: int| 0 <= i < longer.len() && longer[i] == a;
            if i < at {
                assert(list[i] == a);
            } else if i > at {
                assert(list[i - 1] == a);
            }
        }
        if list.contains(a) {
            let i = choose|i: int| 0 <= i < list.len() && list[i] == a;
            if i < at {
                assert(longer[i] == a);
            } else {
                assert(longer[i + 1] == a);
            }
        }
        if a == element {
            assert(longer[at] == a);
        }
    }
    assert(longer.to_set() =~= list.to_set().insert(element));
}

/// Appending an element to a list adds it to the set of the list's elements.
pub proof fn lemma_push_to_set<A>(list: Seq<A>, element: A)
    ensures
        list.push(element).to_set() == list.to_set().insert(element),
{
    assert(list.push(element) =~= list.insert(list.len() as int, element));
    lemma_insert_to_set(list, list.len() as int, element);
}

} // verus!
