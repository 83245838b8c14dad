//! Modifier sets: turning a run of two-letter acronyms into a canonical set,
//! checking it against the known vocabulary, and narrowing scores to those
//! played with exactly that set.

use crate::osu_api::{mods_text, Score};
use crate::text::{
    ascii_upper, ascii_uppercase, has_text, is_ascii_text, same_text, texts, to_uppercase,
    uppercase_of,
};
use vstd::prelude::*;
use vstd::string::*;

verus! {

/// The acronym of the classic-scoring marker, which never counts as a modifier.
pub open spec fn classic() -> Seq<char> {
    seq!['C', 'L']
}

/// How many chunks of two characters `s` falls into; an odd character at the
/// end makes a chunk of its own.
pub open spec fn chunk_count(s: Seq<char>) -> nat {
    (s.len() + 1) / 2
}

/// The `i`-th chunk of `s`: characters `2i` and `2i + 1`, or `2i` alone at the
/// end of a text of odd length.
pub open spec fn chunk(s: Seq<char>, i: int) -> Seq<char> {
    s.subrange(
        2 * i,
        if 2 * i + 2 <= s.len() {
            2 * i + 2
        } else {
            s.len() as int
        },
    )
}

/// `s` cut into consecutive chunks of two characters.
pub open spec fn chunks(s: Seq<char>) -> Seq<Seq<char>> {
    Seq::new(chunk_count(s), |i: int| chunk(s, i))
}

/// The tokens of `c` in order of first appearance, without the classic marker
/// and without repeats.
pub open spec fn collect(c: Seq<Seq<char>>) -> Seq<Seq<char>>
    decreases c.len(),
{
    if c.len() == 0 {
        Seq::empty()
    } else {
        let before = collect(c.drop_last());
        if c.last() == classic() || before.contains(c.last()) {
            before
        } else {
            before.push(c.last())
        }
    }
}

/// The chunks of `s`, each put in upper case.
pub open spec fn upper_chunks(s: Seq<char>) -> Seq<Seq<char>> {
    chunks(s).map_values(|c: Seq<char>| uppercase_of(c))
}

/// The canonical tokens of a modifier text: its chunks in upper case, minus
/// the classic marker, each once, in order of first appearance.
pub open spec fn normalized(s: Seq<char>) -> Seq<Seq<char>> {
    collect(upper_chunks(s))
}

/// Whether upper-casing keeps the length of `c` and changes nothing when it
/// is done twice.
pub open spec fn settled(c: Seq<char>) -> bool {
    uppercase_of(c).len() == c.len() && uppercase_of(uppercase_of(c)) == uppercase_of(c)
}

/// The tokens written one after another.
pub open spec fn joined(tokens: Seq<Seq<char>>) -> Seq<char>
    decreases tokens.len(),
{
    if tokens.len() == 0 {
        Seq::empty()
    } else {
        joined(tokens.drop_last()) + tokens.last()
    }
}

/// Whether `t` is one of the nine modifiers that a filter may name.
pub open spec fn is_known_mod(t: Seq<char>) -> bool {
    ||| t == seq!['H', 'D']
    ||| t == seq!['H', 'R']
    ||| t == seq!['D', 'T']
    ||| t == seq!['N', 'C']
    ||| t == seq!['F', 'L']
    ||| t == seq!['E', 'Z']
    ||| t == seq!['H', 'T']
    ||| t == seq!['S', 'O']
    ||| t == seq!['N', 'F']
}

/// What `collect` keeps: every kept token is a token of `c` other than the
/// classic marker, every such token of `c` is kept, and none is kept twice.
pub proof fn lemma_collect(c: Seq<Seq<char>>)
    ensures
        collect(c).no_duplicates(),
        !collect(c).contains(classic()),
        forall|t: Seq<char>| #[trigger]
            collect(c).contains(t) <==> (c.contains(t) && t != classic()),
        collect(c).len() <= c.len(),
    decreases c.len(),
{
    if c.len() != 0 {
        let rest = c.drop_last();
        let before = collect(rest);
        lemma_collect(rest);
        assert forall|t: Seq<char>| #[trigger]
            collect(c).contains(t) <==> (c.contains(t) && t != classic()) by {
            if collect(c).contains(t) {
                let i = choose|i: int| 0 <= i < collect(c).len() && collect(c)[i] == t;
                if i < before.len() {
                    assert(before[i] == t);
                    assert(before.contains(t));
                    let j = choose|j: int| 0 <= j < rest.len() && rest[j] == t;
                    assert(c[j] == t);
                } else {
                    assert(c[c.len() - 1] == t);
                }
            }
            if c.contains(t) && t != classic() {
                let j = choose|j: int| 0 <= j < c.len() && c[j] == t;
                if j < rest.len() {
                    assert(rest[j] == t);
                    assert(rest.contains(t));
                    assert(before.contains(t));
                    let i = choose|i: int| 0 <= i < before.len() && before[i] == t;
                    assert(collect(c)[i] == t);
                } else if !before.contains(t) {
                    assert(collect(c)[before.len() as int] == t);
                }
            }
        }
        if !(c.last() == classic() || before.contains(c.last())) {
            assert(!collect(c).contains(classic())) by {
                if collect(c).contains(classic()) {
                    let i = choose|i: int| 0 <= i < collect(c).len() && collect(c)[i] == classic();
                    if i < before.len() {
                        assert(before[i] == classic());
                    }
                }
            }
        }
    }
}

/// A set of modifier tokens. The tokens are kept in order of first
/// appearance; two sets are the same when they hold the same tokens, whatever
/// the order.
pub struct ModSet {
    tokens: Vec<String>,
}

impl View for ModSet {
    type V = Set<Seq<char>>;

    open spec fn view(&self) -> Set<Seq<char>> {
        self.tokens().to_set()
    }
}

impl ModSet {
    #[verifier::type_invariant]
    spec fn distinct(self) -> bool {
        texts(self.tokens@).no_duplicates()
    }

    /// The tokens of the set, each once, in order of first appearance.
    pub closed spec fn tokens(&self) -> Seq<Seq<char>> {
        texts(self.tokens@)
    }

    /// Whether `token` is in the set.
    pub fn contains(&self, token: &str) -> (r: bool)
        ensures
            r == self@.contains(token@),
    {
        has_text(&self.tokens, token)
    }

    /// The number of tokens in the set.
    pub fn len(&self) -> (r: usize)
        ensures
            r == self.tokens().len(),
            r == self@.len(),
            self.tokens().no_duplicates(),
    {
        proof {
            use_type_invariant(self);
            self.tokens().unique_seq_to_set();
        }
        self.tokens.len()
    }

    /// Whether the set holds no token.
    pub fn is_empty(&self) -> (r: bool)
        ensures
            r == (self.tokens().len() == 0),
            r == (self@ == Set::<Seq<char>>::empty()),
    {
        proof {
            if self.tokens().len() > 0 {
                assert(self.tokens().contains(self.tokens()[0]));
                assert(self@.contains(self.tokens()[0]));
            } else {
                assert(self@ =~= Set::<Seq<char>>::empty());
            }
        }
        self.tokens.len() == 0
    }

    /// Whether every token of this set is in `other`.
    pub fn is_subset_of(&self, other: &ModSet) -> (r: bool)
        ensures
            r == self@.subset_of(other@),
    {
        let mut i: usize = 0;
        while i < self.tokens.len()
            invariant
                i <= self.tokens.len(),
                forall|j: int| 0 <= j < i ==> other@.contains(self.tokens()[j]),
            decreases self.tokens.len() - i,
        {
            if !has_text(&other.tokens, self.tokens[i].as_str()) {
                assert(self.tokens().contains(self.tokens()[i as int]));
                assert(self@.contains(self.tokens()[i as int]));
                return false;
            }
            i = i + 1;
        }
        true
    }

    /// Whether both sets hold exactly the same tokens.
    pub fn same_as(&self, other: &ModSet) -> (r: bool)
        ensures
            r == (self@ == other@),
    {
        let r = self.is_subset_of(other) && other.is_subset_of(self);
        proof {
            if r {
                assert(self@ =~= other@);
            }
        }
        r
    }

    /// The tokens written one after another, in order of first appearance.
    pub fn join(&self) -> (r: String)
        ensures
            r@ == joined(self.tokens()),
    {
        let mut out = String::new();
        let mut i: usize = 0;
        while i < self.tokens.len()
            invariant
                i <= self.tokens.len(),
                out@ == joined(self.tokens().take(i as int)),
            decreases self.tokens.len() - i,
        {
            proof {
                assert(self.tokens().take(i + 1).drop_last() =~= self.tokens().take(i as int));
            }
            out.append(self.tokens[i].as_str());
            i = i + 1;
        }
        assert(self.tokens().take(i as int) =~= self.tokens());
        out
    }

    /// A copy of the tokens, in order of first appearance.
    pub fn to_vec(&self) -> (r: Vec<String>)
        ensures
            texts(r@) == self.tokens(),
    {
        let mut out: Vec<String> = Vec::new();
        let mut i: usize = 0;
        while i < self.tokens.len()
            invariant
                i <= self.tokens.len(),
                texts(out@) == self.tokens().take(i as int),
            decreases self.tokens.len() - i,
        {
            let ghost before = texts(out@);
            out.push(String::from_str(self.tokens[i].as_str()));
            assert(texts(out@) =~= before.push(self.tokens()[i as int]));
            assert(texts(out@) =~= self.tokens().take(i + 1));
            i = i + 1;
        }
        assert(self.tokens().take(i as int) =~= self.tokens());
        out
    }
}

/// Cuts `mods` into consecutive chunks of two characters; an odd character
/// at the end is a chunk of its own.
pub fn split_chunks(mods: &str) -> (pieces: Vec<String>)
    ensures
        texts(pieces@) == chunks(mods@),
{
    let n: usize = mods.unicode_len();
    let mut pieces: Vec<String> = Vec::new();
    let mut start: usize = 0;
    assert(texts(pieces@) =~= chunks(mods@).take(0));
    while start < n
        invariant
            n == mods@.len(),
            pieces@.len() <= chunk_count(mods@),
            start == 2 * pieces@.len() || (start == n && pieces@.len() == chunk_count(mods@)),
            start <= n,
            texts(pieces@) == chunks(mods@).take(pieces@.len() as int),
        decreases n - start,
    {
        let end: usize = if n - start >= 2 {
            start + 2
        } else {
            n
        };
        let ghost before = texts(pieces@);
        let ghost i = pieces@.len() as int;
        pieces.push(String::from_str(mods.substring_char(start, end)));
        proof {
            assert(texts(pieces@) =~= before.push(chunk(mods@, i)));
            assert(texts(pieces@) =~= chunks(mods@).take(i + 1));
        }
        start = end;
    }
    assert(chunks(mods@).take(pieces@.len() as int) =~= chunks(mods@));
    pieces
}

/// Makes a set of the given tokens: the classic marker is dropped, and of a
/// token that occurs more than once the first occurrence is kept. The tokens
/// are compared as they stand.
pub fn collect_tokens(pieces: &Vec<String>) -> (set: ModSet)
    ensures
        set.tokens() == collect(texts(pieces@)),
        !set@.contains(classic()),
{
    let mut tokens: Vec<String> = Vec::new();
    let mut i: usize = 0;
    proof {
        assert(texts(pieces@).take(0) =~= Seq::<Seq<char>>::empty());
        assert(texts(tokens@) =~= Seq::<Seq<char>>::empty());
    }
    while i < pieces.len()
        invariant
            i <= pieces.len(),
            texts(tokens@) == collect(texts(pieces@).take(i as int)),
        decreases pieces.len() - i,
    {
        let piece = pieces[i].as_str();
        proof {
            let c = texts(pieces@);
            assert(c.take(i + 1).drop_last() =~= c.take(i as int));
            assert(c.take(i + 1).last() == piece@);
            reveal_strlit("CL");
            assert("CL"@ =~= classic());
        }
        if !same_text(piece, "CL") && !has_text(&tokens, piece) {
            let ghost before = texts(tokens@);
            tokens.push(String::from_str(piece));
            assert(texts(tokens@) =~= before.push(piece@));
        }
        i = i + 1;
    }
    proof {
        assert(texts(pieces@).take(i as int) =~= texts(pieces@));
        lemma_collect(texts(pieces@));
    }
    let set = ModSet { tokens };
    assert(!set@.contains(classic()));
    set
}

/// Reads a text of modifier acronyms as a set: cuts it into chunks of two
/// characters, puts each chunk in upper case, drops the classic marker and
/// keeps every other chunk once. An odd character at the end is a token of
/// its own.
pub fn get_mods_without_cl(mods: &str) -> (set: ModSet)
    ensures
        set.tokens() == normalized(mods@),
        !set@.contains(classic()),
{
    let pieces = split_chunks(mods);
    let mut upper: Vec<String> = Vec::new();
    let mut i: usize = 0;
    assert(texts(upper@) =~= upper_chunks(mods@).take(0));
    while i < pieces.len()
        invariant
            i <= pieces.len(),
            texts(pieces@) == chunks(mods@),
            texts(upper@) == upper_chunks(mods@).take(i as int),
        decreases pieces.len() - i,
    {
        let ghost before = texts(upper@);
        upper.push(to_uppercase(pieces[i].as_str()));
        proof {
            assert(texts(pieces@)[i as int] == pieces@[i as int]@);
            assert(texts(upper@) =~= before.push(uppercase_of(chunks(mods@)[i as int])));
            assert(texts(upper@) =~= upper_chunks(mods@).take(i + 1));
        }
        i = i + 1;
    }
    assert(upper_chunks(mods@).take(i as int) =~= upper_chunks(mods@));
    collect_tokens(&upper)
}

/// Every token but the last has two characters, and the last has one or two.
pub open spec fn well_chunked(t: Seq<Seq<char>>) -> bool {
    &&& forall|i: int| 0 <= i < t.len() - 1 ==> (#[trigger] t[i]).len() == 2
    &&& t.len() > 0 ==> 1 <= t.last().len() <= 2
}

/// The chunks of any text are well chunked.
pub proof fn lemma_chunks_well_chunked(s: Seq<char>)
    ensures
        well_chunked(chunks(s)),
{
    let c = chunks(s);
    assert forall|i: int| 0 <= i < c.len() - 1 implies (#[trigger] c[i]).len() == 2 by {
        assert(c[i] == chunk(s, i));
    }
    if c.len() > 0 {
        assert(c.last() == chunk(s, c.len() - 1));
    }
}

/// Dropping the marker and repeats keeps a token list well chunked.
pub proof fn lemma_collect_well_chunked(c: Seq<Seq<char>>)
    requires
        well_chunked(c),
    ensures
        well_chunked(collect(c)),
{
    if c.len() > 0 {
        let rest = c.drop_last();
        let before = collect(rest);
        lemma_collect(rest);
        assert forall|i: int| 0 <= i < before.len() implies (#[trigger] before[i]).len() == 2 by {
            assert(before.contains(before[i]));
            assert(rest.contains(before[i]));
            let j = choose|j: int| 0 <= j < rest.len() && rest[j] == before[i];
            assert(c[j] == before[i]);
        }
        let kept = collect(c);
        assert(well_chunked(kept)) by {
            if kept.len() == before.len() {
                assert(kept == before);
            } else {
                assert(kept == before.push(c.last()));
                assert forall|i: int| 0 <= i < kept.len() - 1 implies (#[trigger] kept[i]).len()
                    == 2 by {
                    assert(kept[i] == before[i]);
                }
            }
        }
    }
}

/// Appending a last token of one or two characters to a text of even length
/// appends one chunk.
pub proof fn lemma_chunks_push(a: Seq<char>, x: Seq<char>)
    requires
        a.len() % 2 == 0,
        1 <= x.len() <= 2,
    ensures
        chunks(a + x) == chunks(a).push(x),
{
    let m = chunk_count(a);
    assert(chunk_count(a + x) == m + 1);
    assert forall|i: int| 0 <= i < m + 1 implies #[trigger] chunks(a + x)[i] == chunks(a).push(
        x,
    )[i] by {
        if i < m {
            assert(chunk(a + x, i) =~= chunk(a, i));
        } else {
            assert(chunk(a + x, i) =~= x);
        }
    }
    assert(chunks(a + x) =~= chunks(a).push(x));
}

/// Cutting the joined tokens of a well-chunked list gives the list back.
pub proof fn lemma_chunks_of_joined(t: Seq<Seq<char>>)
    requires
        well_chunked(t),
    ensures
        chunks(joined(t)) == t,
        (forall|i: int| 0 <= i < t.len() ==> (#[trigger] t[i]).len() == 2) ==> joined(t).len() == 2
            * t.len(),
    decreases t.len(),
{
    if t.len() == 0 {
        assert(chunks(joined(t)) =~= t);
    } else {
        let rest = t.drop_last();
        assert forall|i: int| 0 <= i < rest.len() implies (#[trigger] rest[i]).len() == 2 by {
            assert(rest[i] == t[i]);
        }
        assert(well_chunked(rest));
        lemma_chunks_of_joined(rest);
        lemma_chunks_push(joined(rest), t.last());
        assert(rest.push(t.last()) =~= t);
    }
}

/// A list without the marker and without repeats is kept as it is.
pub proof fn lemma_collect_fixed(t: Seq<Seq<char>>)
    requires
        t.no_duplicates(),
        !t.contains(classic()),
    ensures
        collect(t) == t,
    decreases t.len(),
{
    if t.len() == 0 {
        assert(collect(t) =~= t);
    } else {
        let rest = t.drop_last();
        assert(!rest.contains(classic())) by {
            if rest.contains(classic()) {
                let j = choose|j: int| 0 <= j < rest.len() && rest[j] == classic();
                assert(t[j] == classic());
            }
        }
        assert(rest.no_duplicates());
        lemma_collect_fixed(rest);
        assert(t.last() != classic()) by {
            assert(t[t.len() - 1] == t.last());
        }
        assert(!rest.contains(t.last())) by {
            if rest.contains(t.last()) {
                let j = choose|j: int| 0 <= j < rest.len() && rest[j] == t.last();
                assert(t[j] == t[t.len() - 1]);
            }
        }
        assert(rest.push(t.last()) =~= t);
    }
}

/// The classic marker is never among the canonical tokens of a text.
pub proof fn lemma_normalized_drops_classic(s: Seq<char>)
    ensures
        !normalized(s).contains(classic()),
        !normalized(s).to_set().contains(classic()),
{
    lemma_collect(upper_chunks(s));
}

/// Normalising is idempotent on its own output, where upper-casing settles
/// every chunk of the text: the canonical tokens, written one after another
/// and read again, are the same tokens. A chunk that grows when it is put in
/// upper case is cut differently the second time.
pub proof fn lemma_normalized_idempotent(s: Seq<char>)
    requires
        forall|i: int| 0 <= i < chunk_count(s) ==> settled(#[trigger] chunk(s, i)),
    ensures
        normalized(joined(normalized(s))) == normalized(s),
{
    let u = upper_chunks(s);
    let t = normalized(s);
    lemma_chunks_well_chunked(s);
    assert(well_chunked(u)) by {
        assert forall|i: int| 0 <= i < u.len() - 1 implies (#[trigger] u[i]).len() == 2 by {
            assert(settled(chunk(s, i)));
            assert(chunks(s)[i].len() == 2);
        }
        if u.len() > 0 {
            assert(settled(chunk(s, u.len() - 1)));
            assert(u.last() == uppercase_of(chunks(s).last()));
        }
    }
    lemma_collect_well_chunked(u);
    lemma_chunks_of_joined(t);
    lemma_collect(u);
    assert(upper_chunks(joined(t)) =~= t) by {
        assert forall|k: int| 0 <= k < t.len() implies uppercase_of(#[trigger] t[k]) == t[k] by {
            assert(t.contains(t[k]));
            assert(u.contains(t[k]));
            let i = choose|i: int| 0 <= i < u.len() && u[i] == t[k];
            assert(settled(chunk(s, i)));
            assert(u[i] == uppercase_of(chunk(s, i)));
        }
    }
    lemma_collect_fixed(t);
}

/// Upper-casing settles every ASCII text.
pub proof fn lemma_ascii_settled(c: Seq<char>)
    requires
        is_ascii_text(c),
    ensures
        settled(c),
        is_ascii_text(uppercase_of(c)),
{
    let once = ascii_uppercase(c);
    assert forall|i: int| 0 <= i < once.len() implies (#[trigger] once[i]) as u32 <= 127 by {
        assert(c[i] as u32 <= 127);
    }
    assert(ascii_uppercase(once) =~= once) by {
        assert forall|i: int| 0 <= i < once.len() implies ascii_upper(#[trigger] once[i])
            == once[i] by {
            assert(c[i] as u32 <= 127);
        }
    }
}

/// Normalising is idempotent on its own output for every ASCII text.
pub proof fn lemma_normalized_idempotent_ascii(s: Seq<char>)
    requires
        is_ascii_text(s),
    ensures
        normalized(joined(normalized(s))) == normalized(s),
{
    assert forall|i: int| 0 <= i < chunk_count(s) implies settled(#[trigger] chunk(s, i)) by {
        let c = chunk(s, i);
        assert forall|k: int| 0 <= k < c.len() implies (#[trigger] c[k]) as u32 <= 127 by {
            assert(c[k] == s[2 * i + k]);
        }
        lemma_ascii_settled(c);
    }
    lemma_normalized_idempotent(s);
}

/// The canonical tokens of a text are exactly the upper-case forms of its
/// chunks other than the classic marker, and none of them occurs twice.
pub proof fn lemma_normalized_members(s: Seq<char>)
    ensures
        normalized(s).no_duplicates(),
        normalized(s).len() <= chunk_count(s),
        forall|t: Seq<char>| #[trigger]
            normalized(s).to_set().contains(t) <==> (t != classic() && exists|i: int|
                0 <= i < chunk_count(s) && uppercase_of(chunk(s, i)) == t),
{
    let u = upper_chunks(s);
    lemma_collect(u);
    assert forall|t: Seq<char>| #[trigger]
        normalized(s).to_set().contains(t) <==> (t != classic() && exists|i: int|
            0 <= i < chunk_count(s) && uppercase_of(chunk(s, i)) == t) by {
        assert(normalized(s).to_set().contains(t) <==> collect(u).contains(t));
        if u.contains(t) {
            let i = choose|i: int| 0 <= i < u.len() && u[i] == t;
            assert(uppercase_of(chunk(s, i)) == t);
        }
        if exists|i: int| 0 <= i < chunk_count(s) && uppercase_of(chunk(s, i)) == t {
            let i = choose|i: int| 0 <= i < chunk_count(s) && uppercase_of(chunk(s, i)) == t;
            assert(u[i] == t);
        }
    }
}

/// The tokens that are no known modifier, in their order.
pub open spec fn unknown_tokens(tokens: Seq<Seq<char>>) -> Seq<Seq<char>> {
    tokens.filter(|t: Seq<char>| !is_known_mod(t))
}

/// Whether a score was played with exactly the modifiers of `requested`: its
/// own acronyms, read as a set, are that set.
pub open spec fn played_with(score: Score, requested: Set<Seq<char>>) -> bool {
    normalized(mods_text(score.mods@)).to_set() == requested
}

/// The scores of `scores` played with exactly `requested`, in their order.
pub open spec fn matching(scores: Seq<Score>, requested: Set<Seq<char>>) -> Seq<Score> {
    scores.filter(|s: Score| played_with(s, requested))
}

fn is_known(token: &str) -> (r: bool)
    ensures
        r == is_known_mod(token@),
{
    proof {
        reveal_strlit("HD");
        reveal_strlit("HR");
        reveal_strlit("DT");
        reveal_strlit("NC");
        reveal_strlit("FL");
        reveal_strlit("EZ");
        reveal_strlit("HT");
        reveal_strlit("SO");
        reveal_strlit("NF");
        assert("HD"@ =~= seq!['H', 'D']);
        assert("HR"@ =~= seq!['H', 'R']);
        assert("DT"@ =~= seq!['D', 'T']);
        assert("NC"@ =~= seq!['N', 'C']);
        assert("FL"@ =~= seq!['F', 'L']);
        assert("EZ"@ =~= seq!['E', 'Z']);
        assert("HT"@ =~= seq!['H', 'T']);
        assert("SO"@ =~= seq!['S', 'O']);
        assert("NF"@ =~= seq!['N', 'F']);
    }
    same_text(token, "HD") || same_text(token, "HR") || same_text(token, "DT") || same_text(
        token,
        "NC",
    ) || same_text(token, "FL") || same_text(token, "EZ") || same_text(token, "HT")
        || same_text(token, "SO") || same_text(token, "NF")
}

/// Lists the tokens of `requested` that are not in the known vocabulary. An
/// empty list means that the request may be used as a filter.
pub fn validate(requested: &ModSet) -> (invalid: Vec<String>)
    ensures
        texts(invalid@) == unknown_tokens(requested.tokens()),
{
    let ghost pred = |t: Seq<char>| !is_known_mod(t);
    let mut out: Vec<String> = Vec::new();
    let mut i: usize = 0;
    proof {
        reveal(Seq::filter);
        assert(requested.tokens().take(0) =~= Seq::<Seq<char>>::empty());
        assert(texts(out@) =~= requested.tokens().take(0).filter(pred));
    }
    while i < requested.tokens.len()
        invariant
            i <= requested.tokens.len(),
            pred == (|t: Seq<char>| !is_known_mod(t)),
            texts(out@) == requested.tokens().take(i as int).filter(pred),
        decreases requested.tokens.len() - i,
    {
        proof {
            reveal(Seq::filter);
            let next = requested.tokens().take(i + 1);
            assert(next.drop_last() =~= requested.tokens().take(i as int));
            assert(next.last() == requested.tokens()[i as int]);
        }
        if !is_known(requested.tokens[i].as_str()) {
            let ghost before = texts(out@);
            out.push(String::from_str(requested.tokens[i].as_str()));
            assert(texts(out@) =~= before.push(requested.tokens()[i as int]));
        }
        i = i + 1;
    }
    assert(requested.tokens().take(i as int) =~= requested.tokens());
    out
}

/// Whether `score` was played with exactly the modifiers of `requested`.
pub fn score_matches(score: &Score, requested: &ModSet) -> (r: bool)
    ensures
        r == played_with(*score, requested@),
{
    let own = get_mods_without_cl(score.mods_string().as_str());
    own.same_as(requested)
}

/// Keeps the scores that were played with exactly the modifiers of
/// `requested`, in the order in which they were given, and drops the others.
pub fn filter(scores: Vec<Score>, requested: &ModSet) -> (kept: Vec<Score>)
    ensures
        kept@ == matching(scores@, requested@),
{
    let ghost all = scores@;
    let ghost pred = |s: Score| played_with(s, requested@);
    let mut scores = scores;
    let mut i: usize = 0;
    let ghost mut k: int = 0;
    proof {
        reveal(Seq::filter);
        assert(all.take(0).filter(pred) =~= Seq::<Score>::empty());
        assert(all.skip(0) =~= all);
        assert(scores@ =~= all.take(0).filter(pred) + all.skip(0));
    }
    while i < scores.len()
        invariant
            0 <= k <= all.len(),
            pred == (|s: Score| played_with(s, requested@)),
            i == all.take(k).filter(pred).len(),
            scores@ == all.take(k).filter(pred) + all.skip(k),
        decreases all.len() - k,
    {
        proof {
            reveal(Seq::filter);
            assert(all.take(k + 1).drop_last() =~= all.take(k));
            assert(all.take(k + 1).last() == all[k]);
            assert(scores@[i as int] == all.skip(k)[0]);
        }
        if score_matches(&scores[i], requested) {
            proof {
                assert(scores@ =~= all.take(k + 1).filter(pred) + all.skip(k + 1));
            }
            i = i + 1;
        } else {
            scores.remove(i);
            proof {
                assert(scores@ =~= all.take(k + 1).filter(pred) + all.skip(k + 1));
            }
        }
        proof {
            k = k + 1;
        }
    }
    proof {
        assert(all.take(k) =~= all);
        assert(all.skip(k) =~= Seq::<Score>::empty());
        assert(scores@ =~= all.filter(pred));
    }
    scores
}

/// `positions` picks `sub` out of `all` without reordering: the positions
/// rise strictly, lie inside `all`, and `sub` holds what stands at them.
pub open spec fn picks(positions: Seq<int>, sub: Seq<Score>, all: Seq<Score>) -> bool {
    &&& positions.len() == sub.len()
    &&& forall|i: int|
        0 <= i < positions.len() ==> 0 <= #[trigger] positions[i] < all.len() && sub[i]
            == all[positions[i]]
    &&& forall|i: int, j: int|
        0 <= i < j < positions.len() ==> #[trigger] positions[i] < #[trigger] positions[j]
}

/// Filtering returns a sub-list of the scores without changing their
/// relative order: the kept scores stand at rising positions of the input, each of
/// them matches the request, and no matching score is left out.
pub proof fn lemma_matching_is_sublist(scores: Seq<Score>, requested: Set<Seq<char>>) -> (positions:
    Seq<int>)
    ensures
        picks(positions, matching(scores, requested), scores),
        forall|i: int|
            0 <= i < positions.len() ==> played_with(scores[#[trigger] positions[i]], requested),
        forall|j: int|
            0 <= j < scores.len() && played_with(scores[j], requested)
                ==> #[trigger] positions.contains(j),
    decreases scores.len(),
{
    reveal(Seq::filter);
    if scores.len() == 0 {
        Seq::empty()
    } else {
        let rest = scores.drop_last();
        let before = lemma_matching_is_sublist(rest, requested);
        let last = scores.len() - 1;
        if played_with(scores.last(), requested) {
            let positions = before.push(last);
            assert(matching(scores, requested) == matching(rest, requested).push(scores.last()));
            assert forall|j: int|
                0 <= j < scores.len() && played_with(scores[j], requested) implies positions.contains(
                j,
            ) by {
                if j < last {
                    assert(played_with(rest[j], requested));
                    assert(before.contains(j));
                    let i = choose|i: int| 0 <= i < before.len() && before[i] == j;
                    assert(positions[i] == j);
                } else {
                    assert(positions[before.len() as int] == j);
                }
            }
            positions
        } else {
            assert(matching(scores, requested) == matching(rest, requested));
            assert forall|j: int|
                0 <= j < scores.len() && played_with(scores[j], requested) implies before.contains(
                j,
            ) by {
                assert(played_with(rest[j], requested));
            }
            before
        }
    }
}

} // verus!
