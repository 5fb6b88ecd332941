//! The line-oriented format of directory documents.
//!
//! A document is a sequence of items.  An item is a line that starts with
//! a keyword, goes on with arguments that spaces or tabs separate, and ends
//! with a newline; an object may follow it: lines of base64 between a line
//! `-----BEGIN tag-----` and a line `-----END tag-----`.  A keyword that
//! starts with `@` marks an annotation.
//!
//! Everything here works on the bytes of a document and on offsets into
//! them.

use vstd::prelude::*;

verus! {

/// Why a document could not be parsed.
#[derive(Clone, Copy, Debug, PartialEq, Eq, Structural)]
pub enum Error {
    /// The last line of the document has no newline.
    TruncatedLine,
    /// A line starts with something that is no keyword.
    BadKeyword,
    /// The line that begins an object is malformed.
    BadObjectBeginTag,
    /// An object has no end line, or one that names another tag.
    BadObjectEndTag,
    /// A keyword that has to be there is missing.
    MissingToken(Keyword),
    /// A keyword that may stand once stands twice.
    DuplicateToken(Keyword),
    /// An item has fewer arguments than its keyword asks for.
    TooFewArguments(Keyword),
    /// An item has more arguments than its keyword allows.
    TooManyArguments(Keyword),
    /// An item has an object, and its keyword takes none.
    UnexpectedObject(Keyword),
    /// An item has no object, and its keyword asks for one.
    MissingObject(Keyword),
    /// An item has an object of another kind than its keyword asks for.
    WrongObject(Keyword),
    /// The object of an item does not hold what it should.
    BadObjectVal(Keyword),
    /// An argument of an item is malformed.
    BadArgument(Keyword),
}

/// The keywords of a microdescriptor and of its annotations.
#[derive(Clone, Copy, Debug, PartialEq, Eq, Structural)]
pub enum Keyword {
    /// The annotation `@last-listed`.
    AnnLastListed,
    /// `onion-key`
    OnionKey,
    /// `ntor-onion-key`
    NtorOnionKey,
    /// `family`
    Family,
    /// `p`
    P,
    /// `p6`
    P6,
    /// `id`
    Id,
    /// Any other keyword.
    Unrecognized,
    /// Any other annotation.
    AnnUnrecognized,
}

/// An object that follows a keyword line: where its tag stands, and where
/// the lines between its begin line and its end line stand.
#[derive(Clone, Copy, Debug, PartialEq, Eq, Structural)]
pub struct Object {
    /// Offset of the tag in the begin line.
    pub tag_start: usize,
    /// Offset of the end of the tag.
    pub tag_end: usize,
    /// Offset of the first line of the body.
    pub body_start: usize,
    /// Offset of the end line, which is where the body ends.
    pub body_end: usize,
}

/// An item of a document, as offsets into it.
#[derive(Clone, Copy, Debug, PartialEq, Eq, Structural)]
pub struct Item {
    /// Offset of the keyword, which is where the item starts.
    pub start: usize,
    /// Offset of the end of the keyword.
    pub kwd_end: usize,
    /// Offset of the newline that ends the keyword line.
    pub line_end: usize,
    /// The object, if one follows the keyword line.
    pub object: Option<Object>,
    /// Offset of what follows the item.
    pub next: usize,
}

/// Space or tab: what separates the arguments of an item.
pub open spec fn is_space(c: u8) -> bool {
    c == 32 || c == 9
}

/// A letter or a digit.
pub open spec fn is_alnum(c: u8) -> bool {
    (48 <= c <= 57) || (65 <= c <= 90) || (97 <= c <= 122)
}

/// The offset of the first newline at or after `i`, or the length of `s`
/// where there is none.
pub open spec fn line_end(s: Seq<u8>, i: int) -> int
    decreases s.len() - i,
{
    if i >= s.len() {
        s.len() as int
    } else if s[i] == 10 {
        i
    } else {
        line_end(s, i + 1)
    }
}

/// The offset of the first space or tab in `[i, limit)`, or `limit`.
pub open spec fn word_end(s: Seq<u8>, i: int, limit: int) -> int
    decreases limit - i,
{
    if i >= limit {
        limit
    } else if is_space(s[i]) {
        i
    } else {
        word_end(s, i + 1, limit)
    }
}

/// The offset of the first byte in `[i, limit)` that is neither space nor
/// tab, or `limit`.
pub open spec fn word_start(s: Seq<u8>, i: int, limit: int) -> int
    decreases limit - i,
{
    if i >= limit {
        limit
    } else if !is_space(s[i]) {
        i
    } else {
        word_start(s, i + 1, limit)
    }
}

/// Where the `n`-th word of `s[i..limit]` stands, counting from zero, or
/// `None` where there are not that many words.
pub open spec fn nth_word(s: Seq<u8>, i: int, limit: int, n: nat) -> Option<(int, int)>
    decreases n,
{
    let a = word_start(s, i, limit);
    if a >= limit {
        None
    } else if n == 0 {
        Some((a, word_end(s, a, limit)))
    } else {
        nth_word(s, word_end(s, a, limit), limit, (n - 1) as nat)
    }
}

/// Whether `lit` stands in `s` at offset `i`.
pub open spec fn stands_at(s: Seq<u8>, i: int, lit: Seq<u8>) -> bool {
    0 <= i && i + lit.len() <= s.len() && s.subrange(i, i + lit.len()) == lit
}

/// `-----BEGIN `
pub open spec fn begin_marker() -> Seq<u8> {
    seq![45u8, 45, 45, 45, 45, 66, 69, 71, 73, 78, 32]
}

/// `-----END `
pub open spec fn end_marker() -> Seq<u8> {
    seq![45u8, 45, 45, 45, 45, 69, 78, 68, 32]
}

/// `-----`
pub open spec fn dashes() -> Seq<u8> {
    seq![45u8, 45, 45, 45, 45]
}

/// A keyword without the `@` that marks an annotation.
pub open spec fn keyword_name(k: Seq<u8>) -> Seq<u8> {
    if k.len() > 0 && k[0] == 64 {
        k.subrange(1, k.len() as int)
    } else {
        k
    }
}

/// Whether `name` may stand as a keyword: letters, digits and hyphens, not
/// starting with a hyphen.
pub open spec fn name_ok(name: Seq<u8>) -> bool {
    &&& name.len() > 0
    &&& name[0] != 45
    &&& forall|i: int| 0 <= i < name.len() ==> is_alnum(#[trigger] name[i]) || name[i] == 45
}

/// Whether `k` is a keyword; an annotation has `@` in front.
pub open spec fn keyword_ok(k: Seq<u8>) -> bool {
    name_ok(keyword_name(k))
}

/// Whether `t` is the tag of an object: letters, digits and single spaces
/// between them.
pub open spec fn tag_ok(t: Seq<u8>) -> bool {
    &&& t.len() > 0
    &&& forall|i: int| 0 <= i < t.len() ==> is_alnum(#[trigger] t[i]) || t[i] == 32
}

/// The offset of the first line at or after `i` that starts with
/// `-----END `, or the length of `s` where there is none.  `i` is the start
/// of a line.
pub open spec fn end_line(s: Seq<u8>, i: int) -> int
    decreases s.len() - i,
{
    if i >= s.len() {
        s.len() as int
    } else if stands_at(s, i, end_marker()) {
        i
    } else {
        let e = line_end(s, i);
        if e >= s.len() || e < i {
            s.len() as int
        } else {
            end_line(s, e + 1)
        }
    }
}

/// The object that starts at offset `start`, where a line `-----BEGIN `
/// stands, and the offset of what follows it.  The begin line holds the
/// marker of eleven bytes, the tag, and five hyphens; the end line holds
/// `-----END `, the same tag, and five hyphens.
pub open spec fn object_at(s: Seq<u8>, start: int) -> Result<(Object, int), Error> {
    let te = line_end(s, start);
    let tag = s.subrange(start + 11, te - 5);
    if te >= s.len() || te - start < 17 || !stands_at(s, te - 5, dashes()) || !tag_ok(tag) {
        Err(Error::BadObjectBeginTag)
    } else {
        let l = end_line(s, te + 1);
        let le = line_end(s, l);
        if l >= s.len() || le >= s.len() || s.subrange(l, le) != end_marker() + tag + dashes() {
            Err(Error::BadObjectEndTag)
        } else {
            Ok(
                (
                    Object {
                        tag_start: (start + 11) as usize,
                        tag_end: (te - 5) as usize,
                        body_start: (te + 1) as usize,
                        body_end: l as usize,
                    },
                    le + 1,
                ),
            )
        }
    }
}

/// The item that starts at offset `pos` of `s`.
pub open spec fn item_at(s: Seq<u8>, pos: int) -> Result<Item, Error> {
    let e = line_end(s, pos);
    let k = word_end(s, pos, e);
    if e >= s.len() {
        Err(Error::TruncatedLine)
    } else if !keyword_ok(s.subrange(pos, k)) {
        Err(Error::BadKeyword)
    } else if !stands_at(s, e + 1, begin_marker()) {
        Ok(
            Item {
                start: pos as usize,
                kwd_end: k as usize,
                line_end: e as usize,
                object: None,
                next: (e + 1) as usize,
            },
        )
    } else {
        match object_at(s, e + 1) {
            Err(err) => Err(err),
            Ok((object, next)) => Ok(
                Item {
                    start: pos as usize,
                    kwd_end: k as usize,
                    line_end: e as usize,
                    object: Some(object),
                    next: next as usize,
                },
            ),
        }
    }
}

/// Whether the offsets of `item` are in order and within a document of
/// `len` bytes.
pub open spec fn item_within(item: Item, len: int) -> bool {
    &&& item.start < item.kwd_end <= item.line_end < item.next <= len
    &&& item.object matches Some(o) ==> item.line_end < o.tag_start < o.tag_end < o.body_start
        <= o.body_end < item.next
}

/// Where a line ends.
pub proof fn lemma_line_end(s: Seq<u8>, i: int)
    requires
        0 <= i <= s.len(),
    ensures
        i <= line_end(s, i) <= s.len(),
        line_end(s, i) < s.len() ==> s[line_end(s, i)] == 10,
        forall|j: int| i <= j < line_end(s, i) ==> s[j] != 10,
    decreases s.len() - i,
{
    if i < s.len() && s[i] != 10 {
        lemma_line_end(s, i + 1);
    }
}

/// Where a word ends.
pub proof fn lemma_word_end(s: Seq<u8>, i: int, limit: int)
    requires
        0 <= i <= limit <= s.len(),
    ensures
        i <= word_end(s, i, limit) <= limit,
        word_end(s, i, limit) < limit ==> is_space(s[word_end(s, i, limit)]),
        forall|j: int| i <= j < word_end(s, i, limit) ==> !is_space(s[j]),
    decreases limit - i,
{
    if i < limit && !is_space(s[i]) {
        lemma_word_end(s, i + 1, limit);
    }
}

/// Where a word starts.
pub proof fn lemma_word_start(s: Seq<u8>, i: int, limit: int)
    requires
        0 <= i <= limit <= s.len(),
    ensures
        i <= word_start(s, i, limit) <= limit,
        word_start(s, i, limit) < limit ==> !is_space(s[word_start(s, i, limit)]),
    decreases limit - i,
{
    if i < limit && is_space(s[i]) {
        lemma_word_start(s, i + 1, limit);
    }
}

/// Where the end line of an object stands.
pub proof fn lemma_end_line(s: Seq<u8>, i: int)
    requires
        0 <= i <= s.len(),
    ensures
        i <= end_line(s, i) <= s.len(),
    decreases s.len() - i,
{
    if i < s.len() && !stands_at(s, i, end_marker()) {
        lemma_line_end(s, i);
        let e = line_end(s, i);
        if e < s.len() {
            lemma_end_line(s, e + 1);
        }
    }
}

/// An item that was read lies within the document, and is not empty.
pub proof fn lemma_item_within(s: Seq<u8>, pos: int)
    requires
        0 <= pos < s.len(),
        s.len() <= usize::MAX,
        item_at(s, pos) is Ok,
    ensures
        item_within(item_at(s, pos)->Ok_0, s.len() as int),
        item_at(s, pos)->Ok_0.start == pos,
{
    lemma_line_end(s, pos);
    let e = line_end(s, pos);
    lemma_word_end(s, pos, e);
    let k = word_end(s, pos, e);
    assert(k > pos) by {
        if k == pos {
            assert(s.subrange(pos, k).len() == 0);
        }
    }
    if stands_at(s, e + 1, begin_marker()) {
        lemma_line_end(s, e + 1);
        let te = line_end(s, e + 1);
        lemma_end_line(s, te + 1);
        let l = end_line(s, te + 1);
        lemma_line_end(s, l);
    }
}

/// Find the end of the line that `i` is in.
pub fn find_line_end(s: &[u8], i: usize) -> (e: usize)
    requires
        i <= s.len(),
    ensures
        e == line_end(s@, i as int),
        i <= e <= s.len(),
{
    let mut e: usize = i;
    while e < s.len() && s[e] != 10
        invariant
            i <= e <= s.len(),
            line_end(s@, i as int) == line_end(s@, e as int),
        decreases s.len() - e,
    {
        e += 1;
    }
    e
}

/// Find the end of the word that starts at `i`, looking no further than
/// `limit`.
pub fn find_word_end(s: &[u8], i: usize, limit: usize) -> (e: usize)
    requires
        i <= limit <= s.len(),
    ensures
        e == word_end(s@, i as int, limit as int),
        i <= e <= limit,
{
    let mut e: usize = i;
    while e < limit && !(s[e] == 32 || s[e] == 9)
        invariant
            i <= e <= limit <= s.len(),
            word_end(s@, i as int, limit as int) == word_end(s@, e as int, limit as int),
        decreases limit - e,
    {
        e += 1;
    }
    e
}

/// Find the start of the next word at or after `i`, looking no further
/// than `limit`.
pub fn find_word_start(s: &[u8], i: usize, limit: usize) -> (e: usize)
    requires
        i <= limit <= s.len(),
    ensures
        e == word_start(s@, i as int, limit as int),
        i <= e <= limit,
{
    let mut e: usize = i;
    while e < limit && (s[e] == 32 || s[e] == 9)
        invariant
            i <= e <= limit <= s.len(),
            word_start(s@, i as int, limit as int) == word_start(s@, e as int, limit as int),
        decreases limit - e,
    {
        e += 1;
    }
    e
}

/// Find the `n`-th word of `s[i..limit]`, counting from zero.
pub fn find_nth_word(s: &[u8], i: usize, limit: usize, n: usize) -> (r: Option<(usize, usize)>)
    requires
        i <= limit <= s.len(),
    ensures
        match nth_word(s@, i as int, limit as int, n as nat) {
            Some((a, b)) => r == Some((a as usize, b as usize)) && i <= a < b <= limit,
            None => r is None,
        },
{
    let mut at: usize = i;
    let mut left: usize = n;
    loop
        invariant
            i <= at <= limit <= s.len(),
            nth_word(s@, i as int, limit as int, n as nat) == nth_word(
                s@,
                at as int,
                limit as int,
                left as nat,
            ),
        decreases left,
    {
        let a = find_word_start(s, at, limit);
        if a >= limit {
            return None;
        }
        let b = find_word_end(s, a, limit);
        proof {
            lemma_word_start(s@, at as int, limit as int);
            lemma_word_end(s@, a as int, limit as int);
        }
        if left == 0 {
            return Some((a, b));
        }
        at = b;
        left -= 1;
    }
}

/// Whether the bytes of `lit` stand in `s` at offset `i`.
pub fn has_at(s: &[u8], i: usize, lit: &[u8]) -> (r: bool)
    requires
        i <= s.len(),
    ensures
        r == stands_at(s@, i as int, lit@),
{
    if lit.len() > s.len() - i {
        return false;
    }
    let mut j: usize = 0;
    while j < lit.len()
        invariant
            j <= lit.len(),
            i + lit.len() <= s.len(),
            forall|k: int| 0 <= k < j ==> s@[i + k] == lit@[k],
        decreases lit.len() - j,
    {
        if s[i + j] != lit[j] {
            proof {
                assert(s@.subrange(i as int, i + lit.len())[j as int] == s@[i + j]);
            }
            return false;
        }
        j += 1;
    }
    proof {
        assert(s@.subrange(i as int, i + lit.len()) =~= lit@);
    }
    true
}

/// Whether `s[a..b]` is the bytes of `lit`.
pub fn is_bytes(s: &[u8], a: usize, b: usize, lit: &[u8]) -> (r: bool)
    requires
        a <= b <= s.len(),
    ensures
        r == (s@.subrange(a as int, b as int) == lit@),
{
    if b - a != lit.len() {
        return false;
    }
    has_at(s, a, lit)
}

/// Whether `c` is a letter or a digit.
pub fn alnum(c: u8) -> (r: bool)
    ensures
        r == is_alnum(c),
{
    (48 <= c && c <= 57) || (65 <= c && c <= 90) || (97 <= c && c <= 122)
}

/// Whether `s[a..b]` is a keyword.
pub fn check_keyword(s: &[u8], a: usize, b: usize) -> (r: bool)
    requires
        a <= b <= s.len(),
    ensures
        r == keyword_ok(s@.subrange(a as int, b as int)),
{
    let ghost k = s@.subrange(a as int, b as int);
    let from: usize = if a < b && s[a] == 64 {
        a + 1
    } else {
        a
    };
    let ghost body = s@.subrange(from as int, b as int);
    let ghost named = keyword_name(k);
    proof {
        if k.len() > 0 {
            assert(k[0] == s@[a as int]);
        }
        assert(named =~= body);
    }
    if from >= b || s[from] == 45 {
        proof {
            if from < b {
                assert(named[0] == 45);
            }
        }
        return false;
    }
    assert(named[0] == s@[from as int]);
    let mut i: usize = from;
    while i < b
        invariant
            from <= i <= b <= s.len(),
            named == keyword_name(s@.subrange(a as int, b as int)),
            named == s@.subrange(from as int, b as int),
            forall|j: int| 0 <= j < i - from ==> is_alnum(#[trigger] named[j]) || named[j] == 45,
        decreases b - i,
    {
        proof {
            assert(named[i - from] == s@[i as int]);
        }
        if !(alnum(s[i]) || s[i] == 45) {
            return false;
        }
        i += 1;
    }
    true
}

/// Whether `s[a..b]` is the tag of an object.
pub fn check_tag(s: &[u8], a: usize, b: usize) -> (r: bool)
    requires
        a <= b <= s.len(),
    ensures
        r == tag_ok(s@.subrange(a as int, b as int)),
{
    let ghost t = s@.subrange(a as int, b as int);
    if a >= b {
        return false;
    }
    let mut i: usize = a;
    while i < b
        invariant
            a <= i <= b <= s.len(),
            t == s@.subrange(a as int, b as int),
            forall|j: int| 0 <= j < i - a ==> is_alnum(#[trigger] t[j]) || t[j] == 32,
        decreases b - i,
    {
        if !(alnum(s[i]) || s[i] == 32) {
            proof {
                assert(t[i - a] == s@[i as int]);
            }
            return false;
        }
        proof {
            assert(t[i - a] == s@[i as int]);
        }
        i += 1;
    }
    true
}

/// Find the end line of an object whose body starts at `i`.
pub fn find_end_line(s: &[u8], i: usize) -> (l: usize)
    requires
        i <= s.len(),
    ensures
        l == end_line(s@, i as int),
        i <= l <= s.len(),
{
    let mut l: usize = i;
    loop
        invariant
            i <= l <= s.len(),
            end_line(s@, i as int) == end_line(s@, l as int),
        decreases s.len() - l,
    {
        if l >= s.len() {
            return l;
        }
        if has_at(s, l, &[45, 45, 45, 45, 45, 69, 78, 68, 32]) {
            proof {
                assert([45u8, 45, 45, 45, 45, 69, 78, 68, 32]@ =~= end_marker());
            }
            return l;
        }
        proof {
            assert([45u8, 45, 45, 45, 45, 69, 78, 68, 32]@ =~= end_marker());
        }
        let e = find_line_end(s, l);
        if e >= s.len() {
            return s.len();
        }
        l = e + 1;
    }
}


/// Whether `s[a..b]` and `t[c..d]` hold the same bytes.
pub fn ranges_equal(s: &[u8], a: usize, b: usize, t: &[u8], c: usize, d: usize) -> (r: bool)
    requires
        a <= b <= s.len(),
        c <= d <= t.len(),
    ensures
        r == (s@.subrange(a as int, b as int) == t@.subrange(c as int, d as int)),
{
    let ghost x = s@.subrange(a as int, b as int);
    let ghost y = t@.subrange(c as int, d as int);
    if b - a != d - c {
        proof {
            assert(x.len() != y.len());
        }
        return false;
    }
    let mut j: usize = 0;
    while j < b - a
        invariant
            j <= b - a,
            b - a == d - c,
            a <= b <= s.len(),
            c <= d <= t.len(),
            x == s@.subrange(a as int, b as int),
            y == t@.subrange(c as int, d as int),
            forall|k: int| 0 <= k < j ==> x[k] == y[k],
        decreases b - a - j,
    {
        proof {
            assert(x[j as int] == s@[a + j]);
            assert(y[j as int] == t@[c + j]);
        }
        if s[a + j] != t[c + j] {
            return false;
        }
        j += 1;
    }
    proof {
        assert(x =~= y);
    }
    true
}

/// Read the object that starts at offset `start`, where a line
/// `-----BEGIN ` stands.
pub fn read_object(s: &[u8], start: usize) -> (r: Result<(Object, usize), Error>)
    requires
        start <= s.len(),
        stands_at(s@, start as int, begin_marker()),
    ensures
        match object_at(s@, start as int) {
            Ok((object, next)) => r == Ok::<(Object, usize), Error>((object, next as usize))
                && next <= s.len() && start + 11 == object.tag_start < object.tag_end
                < object.body_start <= object.body_end < next,
            Err(e) => r == Err::<(Object, usize), Error>(e),
        },
{
    let te = find_line_end(s, start);
    if te >= s.len() || te - start < 17 {
        return Err(Error::BadObjectBeginTag);
    }
    let tag_start: usize = start + 11;
    let tag_end: usize = te - 5;
    let closed = has_at(s, tag_end, &[45, 45, 45, 45, 45]);
    proof {
        assert([45u8, 45, 45, 45, 45]@ =~= dashes());
    }
    if !closed || !check_tag(s, tag_start, tag_end) {
        return Err(Error::BadObjectBeginTag);
    }
    let body_start: usize = te + 1;
    let l = find_end_line(s, body_start);
    if l >= s.len() {
        return Err(Error::BadObjectEndTag);
    }
    let le = find_line_end(s, l);
    if le >= s.len() {
        return Err(Error::BadObjectEndTag);
    }
    let ghost tag = s@.subrange(tag_start as int, tag_end as int);
    let ghost line = s@.subrange(l as int, le as int);
    let ghost want = end_marker() + tag + dashes();
    let tag_len: usize = tag_end - tag_start;
    if le - l != tag_len + 14 {
        proof {
            assert(line.len() != want.len());
        }
        return Err(Error::BadObjectEndTag);
    }
    let ends = has_at(s, l, &[45, 45, 45, 45, 45, 69, 78, 68, 32]);
    let same = ranges_equal(s, l + 9, l + 9 + tag_len, s, tag_start, tag_end);
    let closes = has_at(s, le - 5, &[45, 45, 45, 45, 45]);
    proof {
        assert([45u8, 45, 45, 45, 45, 69, 78, 68, 32]@ =~= end_marker());
        assert(s@.subrange(l as int, l + 9) =~= line.subrange(0, 9));
        assert(s@.subrange(l + 9, l + 9 + tag_len) =~= line.subrange(9, 9 + tag_len));
        assert(s@.subrange(le - 5, le as int) =~= line.subrange(9 + tag_len, 14 + tag_len));
        assert(want.subrange(0, 9) =~= end_marker());
        assert(want.subrange(9, 9 + tag_len) =~= tag);
        assert(want.subrange(9 + tag_len, 14 + tag_len) =~= dashes());
        if ends && same && closes {
            assert(line =~= want) by {
                assert forall|k: int| 0 <= k < line.len() implies line[k] == want[k] by {
                    if k < 9 {
                        assert(line.subrange(0, 9)[k] == want.subrange(0, 9)[k]);
                    } else if k < 9 + tag_len {
                        assert(line.subrange(9, 9 + tag_len)[k - 9] == want.subrange(
                            9,
                            9 + tag_len,
                        )[k - 9]);
                    } else {
                        assert(line.subrange(9 + tag_len, 14 + tag_len)[k - 9 - tag_len]
                            == want.subrange(9 + tag_len, 14 + tag_len)[k - 9 - tag_len]);
                    }
                }
            }
        }
    }
    if !(ends && same && closes) {
        return Err(Error::BadObjectEndTag);
    }
    Ok((Object { tag_start, tag_end, body_start, body_end: l }, le + 1))
}

/// Read the item that starts at offset `pos`.
pub fn read_item(s: &[u8], pos: usize) -> (r: Result<Item, Error>)
    requires
        pos < s.len(),
    ensures
        r == item_at(s@, pos as int),
        r is Ok ==> item_within(r->Ok_0, s.len() as int) && r->Ok_0.start == pos,
{
    let e = find_line_end(s, pos);
    if e >= s.len() {
        return Err(Error::TruncatedLine);
    }
    let k = find_word_end(s, pos, e);
    if !check_keyword(s, pos, k) {
        return Err(Error::BadKeyword);
    }
    proof {
        lemma_item_within_line(s@, pos as int);
    }
    let begins = has_at(s, e + 1, &[45, 45, 45, 45, 45, 66, 69, 71, 73, 78, 32]);
    proof {
        assert([45u8, 45, 45, 45, 45, 66, 69, 71, 73, 78, 32]@ =~= begin_marker());
    }
    if !begins {
        return Ok(Item { start: pos, kwd_end: k, line_end: e, object: None, next: e + 1 });
    }
    match read_object(s, e + 1) {
        Err(err) => Err(err),
        Ok((object, next)) => Ok(
            Item { start: pos, kwd_end: k, line_end: e, object: Some(object), next },
        ),
    }
}

/// The keyword of an item is not empty.
pub proof fn lemma_item_within_line(s: Seq<u8>, pos: int)
    requires
        0 <= pos < s.len(),
        keyword_ok(s.subrange(pos, word_end(s, pos, line_end(s, pos)))),
    ensures
        pos < word_end(s, pos, line_end(s, pos)) <= line_end(s, pos) <= s.len(),
{
    lemma_line_end(s, pos);
    lemma_word_end(s, pos, line_end(s, pos));
}

/// `@last-listed`
pub open spec fn text_last_listed() -> Seq<u8> {
    seq![64u8, 108, 97, 115, 116, 45, 108, 105, 115, 116, 101, 100]
}

/// `onion-key`
pub open spec fn text_onion_key() -> Seq<u8> {
    seq![111u8, 110, 105, 111, 110, 45, 107, 101, 121]
}

/// `ntor-onion-key`
pub open spec fn text_ntor_onion_key() -> Seq<u8> {
    seq![110u8, 116, 111, 114, 45, 111, 110, 105, 111, 110, 45, 107, 101, 121]
}

/// `family`
pub open spec fn text_family() -> Seq<u8> {
    seq![102u8, 97, 109, 105, 108, 121]
}

/// `p`
pub open spec fn text_p() -> Seq<u8> {
    seq![112u8]
}

/// `p6`
pub open spec fn text_p6() -> Seq<u8> {
    seq![112u8, 54]
}

/// `id`
pub open spec fn text_id() -> Seq<u8> {
    seq![105u8, 100]
}

/// The keyword that the text `k` stands for.
pub open spec fn classify(k: Seq<u8>) -> Keyword {
    if k == text_last_listed() {
        Keyword::AnnLastListed
    } else if k == text_onion_key() {
        Keyword::OnionKey
    } else if k == text_ntor_onion_key() {
        Keyword::NtorOnionKey
    } else if k == text_family() {
        Keyword::Family
    } else if k == text_p() {
        Keyword::P
    } else if k == text_p6() {
        Keyword::P6
    } else if k == text_id() {
        Keyword::Id
    } else if k.len() > 0 && k[0] == 64 {
        Keyword::AnnUnrecognized
    } else {
        Keyword::Unrecognized
    }
}

/// Whether `kw` is the keyword of an annotation.
pub open spec fn is_annotation(kw: Keyword) -> bool {
    kw == Keyword::AnnLastListed || kw == Keyword::AnnUnrecognized
}

/// The keyword of `item` in the document `s`.
pub open spec fn keyword_of(s: Seq<u8>, item: Item) -> Keyword {
    classify(s.subrange(item.start as int, item.kwd_end as int))
}

impl Keyword {
    /// Whether this is the keyword of an annotation.
    pub fn is_annotation(&self) -> (r: bool)
        ensures
            r == is_annotation(*self),
    {
        match self {
            Keyword::AnnLastListed => true,
            Keyword::AnnUnrecognized => true,
            _ => false,
        }
    }
}

impl Item {
    /// The keyword of this item.
    pub fn keyword(&self, s: &[u8]) -> (kw: Keyword)
        requires
            item_within(*self, s.len() as int),
        ensures
            kw == keyword_of(s@, *self),
    {
        let a = self.start;
        let b = self.kwd_end;
        proof {
            assert([64u8, 108, 97, 115, 116, 45, 108, 105, 115, 116, 101, 100]@
                =~= text_last_listed());
            assert([111u8, 110, 105, 111, 110, 45, 107, 101, 121]@ =~= text_onion_key());
            assert([110u8, 116, 111, 114, 45, 111, 110, 105, 111, 110, 45, 107, 101, 121]@
                =~= text_ntor_onion_key());
            assert([102u8, 97, 109, 105, 108, 121]@ =~= text_family());
            assert([112u8]@ =~= text_p());
            assert([112u8, 54]@ =~= text_p6());
            assert([105u8, 100]@ =~= text_id());
            assert(s@.subrange(a as int, b as int)[0] == s@[a as int]);
        }
        if is_bytes(s, a, b, &[64, 108, 97, 115, 116, 45, 108, 105, 115, 116, 101, 100]) {
            Keyword::AnnLastListed
        } else if is_bytes(s, a, b, &[111, 110, 105, 111, 110, 45, 107, 101, 121]) {
            Keyword::OnionKey
        } else if is_bytes(
            s,
            a,
            b,
            &[110, 116, 111, 114, 45, 111, 110, 105, 111, 110, 45, 107, 101, 121],
        ) {
            Keyword::NtorOnionKey
        } else if is_bytes(s, a, b, &[102, 97, 109, 105, 108, 121]) {
            Keyword::Family
        } else if is_bytes(s, a, b, &[112]) {
            Keyword::P
        } else if is_bytes(s, a, b, &[112, 54]) {
            Keyword::P6
        } else if is_bytes(s, a, b, &[105, 100]) {
            Keyword::Id
        } else if s[a] == 64 {
            Keyword::AnnUnrecognized
        } else {
            Keyword::Unrecognized
        }
    }

    /// Where the `n`-th argument of this item stands, counting from zero.
    pub fn arg(&self, s: &[u8], n: usize) -> (r: Option<(usize, usize)>)
        requires
            item_within(*self, s.len() as int),
        ensures
            match nth_word(s@, self.kwd_end as int, self.line_end as int, n as nat) {
                Some((a, b)) => r == Some((a as usize, b as usize)) && self.kwd_end <= a < b
                    <= self.line_end,
                None => r is None,
            },
    {
        find_nth_word(s, self.kwd_end, self.line_end, n)
    }
}

/// Whether a keyword takes an object.
#[derive(Clone, Copy, Debug, PartialEq, Eq, Structural)]
pub enum ObjKind {
    /// No object may follow.
    NoObj,
    /// An object has to follow.
    RequireObj,
    /// An object may follow.
    ObjOk,
}

/// What a section asks of the items with one keyword.
#[derive(Clone, Copy, Debug, PartialEq, Eq, Structural)]
pub struct Rule {
    /// The keyword.
    pub kwd: Keyword,
    /// Whether an item with it has to be there.
    pub required: bool,
    /// Whether more than one item may have it.
    pub may_repeat: bool,
    /// The least number of arguments.
    pub min_args: usize,
    /// The greatest number of arguments, if there is one.
    pub max_args: Option<usize>,
    /// Whether an object follows.
    pub obj: ObjKind,
}

/// Whether `item` has at least `n` arguments.
pub open spec fn has_args(s: Seq<u8>, item: Item, n: nat) -> bool {
    n == 0 || nth_word(s, item.kwd_end as int, item.line_end as int, (n - 1) as nat) is Some
}

/// What `rule` finds wrong with `item`, an item with its keyword.
pub open spec fn item_fault(s: Seq<u8>, item: Item, rule: Rule) -> Option<Error> {
    if !has_args(s, item, rule.min_args as nat) {
        Some(Error::TooFewArguments(rule.kwd))
    } else if rule.max_args is Some && has_args(s, item, rule.max_args->0 as nat + 1) {
        Some(Error::TooManyArguments(rule.kwd))
    } else if rule.obj == ObjKind::NoObj && item.object is Some {
        Some(Error::UnexpectedObject(rule.kwd))
    } else if rule.obj == ObjKind::RequireObj && item.object is None {
        Some(Error::MissingObject(rule.kwd))
    } else {
        None
    }
}

/// Hold the items from index `from` on against `rule`, where `seen` items
/// with its keyword stand before them: the number of items with the
/// keyword, or the first fault in the order of the document.
pub open spec fn rule_scan(s: Seq<u8>, items: Seq<Item>, rule: Rule, from: int, seen: nat) -> Result<
    nat,
    Error,
>
    decreases items.len() - from,
{
    if from >= items.len() {
        Ok(seen)
    } else if keyword_of(s, items[from]) != rule.kwd {
        rule_scan(s, items, rule, from + 1, seen)
    } else if seen > 0 && !rule.may_repeat {
        Err(Error::DuplicateToken(rule.kwd))
    } else {
        match item_fault(s, items[from], rule) {
            Some(e) => Err(e),
            None => rule_scan(s, items, rule, from + 1, seen + 1),
        }
    }
}

/// What `rule` finds wrong with the items of a section.
pub open spec fn rule_fault(s: Seq<u8>, items: Seq<Item>, rule: Rule) -> Option<Error> {
    match rule_scan(s, items, rule, 0, 0) {
        Err(e) => Some(e),
        Ok(n) => if n == 0 && rule.required {
            Some(Error::MissingToken(rule.kwd))
        } else {
            None
        },
    }
}

/// The index of the first item from index `from` on that has the keyword
/// `kwd`.
pub open spec fn find_keyword(s: Seq<u8>, items: Seq<Item>, kwd: Keyword, from: int) -> Option<int>
    decreases items.len() - from,
{
    if from >= items.len() {
        None
    } else if keyword_of(s, items[from]) == kwd {
        Some(from)
    } else {
        find_keyword(s, items, kwd, from + 1)
    }
}

/// Whether every item lies within a document of `len` bytes.
pub open spec fn items_within(items: Seq<Item>, len: int) -> bool {
    forall|i: int| 0 <= i < items.len() ==> item_within(#[trigger] items[i], len)
}

impl Rule {
    /// Hold one item with the keyword of this rule against it.
    pub fn check_item(&self, s: &[u8], item: &Item) -> (r: Option<Error>)
        requires
            item_within(*item, s.len() as int),
        ensures
            r == item_fault(s@, *item, *self),
    {
        if self.min_args > 0 && item.arg(s, self.min_args - 1).is_none() {
            return Some(Error::TooFewArguments(self.kwd));
        }
        match self.max_args {
            Some(max) => {
                if max < usize::MAX && item.arg(s, max).is_some() {
                    return Some(Error::TooManyArguments(self.kwd));
                }
                proof {
                    if max == usize::MAX {
                        lemma_words_fit(
                            s@,
                            item.kwd_end as int,
                            item.line_end as int,
                            max as nat,
                        );
                    }
                }
            },
            None => {},
        }
        match (self.obj, item.object) {
            (ObjKind::NoObj, Some(_)) => Some(Error::UnexpectedObject(self.kwd)),
            (ObjKind::RequireObj, None) => Some(Error::MissingObject(self.kwd)),
            _ => None,
        }
    }

    /// Hold the items of a section against this rule.
    pub fn check(&self, s: &[u8], items: &Vec<Item>) -> (r: Option<Error>)
        requires
            items_within(items@, s.len() as int),
        ensures
            r == rule_fault(s@, items@, *self),
    {
        let mut seen: usize = 0;
        let mut i: usize = 0;
        while i < items.len()
            invariant
                i <= items.len(),
                seen <= i,
                items_within(items@, s.len() as int),
                rule_scan(s@, items@, *self, 0, 0) == rule_scan(
                    s@,
                    items@,
                    *self,
                    i as int,
                    seen as nat,
                ),
            decreases items.len() - i,
        {
            let item = &items[i];
            if item.keyword(s) == self.kwd {
                if seen > 0 && !self.may_repeat {
                    return Some(Error::DuplicateToken(self.kwd));
                }
                match self.check_item(s, item) {
                    Some(e) => {
                        return Some(e);
                    },
                    None => {},
                }
                seen += 1;
            }
            i += 1;
        }
        if seen == 0 && self.required {
            Some(Error::MissingToken(self.kwd))
        } else {
            None
        }
    }
}

/// A text of fewer than `n` bytes has no `n`-th word.
pub proof fn lemma_words_fit(s: Seq<u8>, i: int, limit: int, n: nat)
    requires
        0 <= i <= limit <= s.len(),
        limit - i <= n,
    ensures
        nth_word(s, i, limit, n) is None,
    decreases n,
{
    lemma_word_start(s, i, limit);
    let a = word_start(s, i, limit);
    if a < limit && n > 0 {
        lemma_word_end(s, a, limit);
        lemma_words_fit(s, word_end(s, a, limit), limit, (n - 1) as nat);
    }
}

/// Find the first item from index `from` on that has the keyword `kwd`.
pub fn find_item(s: &[u8], items: &Vec<Item>, kwd: Keyword, from: usize) -> (r: Option<usize>)
    requires
        items_within(items@, s.len() as int),
    ensures
        match find_keyword(s@, items@, kwd, from as int) {
            Some(i) => r == Some(i as usize) && from <= i < items.len(),
            None => r is None,
        },
{
    let mut i: usize = from;
    while i < items.len()
        invariant
            from <= i,
            items_within(items@, s.len() as int),
            find_keyword(s@, items@, kwd, from as int) == find_keyword(s@, items@, kwd, i as int),
        decreases items.len() - i,
    {
        if items[i].keyword(s) == kwd {
            return Some(i);
        }
        i += 1;
    }
    None
}

} // verus!
