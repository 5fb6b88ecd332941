//! Parsing of microdescriptors.
//!
//! A microdescriptor is a short summary of a relay that the directory
//! authorities make: the keys of the relay, its family and its exit
//! policies.  Microdescriptors are stored one after the other, each with
//! annotations in front; the parser reads one of them and stops where the
//! next one starts.

use crate::crypto::{
    ed25519_key_ok, ed25519_key_valid, rsa_der_bits, rsa_der_exponent_is, rsa_exponent_is,
    rsa_modulus_bits, sha256, sha256_digest,
};
use crate::netdoc::{
    find_item, find_keyword, is_annotation, is_bytes, item_at, item_within, items_within,
    keyword_of, nth_word, read_item, rule_fault, text_onion_key, word_start, Error, Item, Keyword,
    ObjKind, Rule,
};
use crate::values::{
    base64_of, bytes_of, decode_base64, decode_object, family_of, idents_view, key32_from,
    key32_of, object_bytes, parse_family, parse_ranges, parse_time, policy_of, ranges_of,
    time_of, Iso8601TimeSp, PortPolicy, PortRange,
};
use vstd::prelude::*;
use vstd::slice::slice_subrange;
use vstd::string::StringSliceAdditionalSpecFns;

verus! {

/// Reads a document item by item, and remembers how far it has come.
pub struct NetDocReader<'a> {
    /// The bytes of the document.
    s: &'a [u8],
    /// The offset of the next item.
    pos: usize,
}

impl<'a> NetDocReader<'a> {
    #[verifier::type_invariant]
    spec fn within(self) -> bool {
        self.pos <= self.s@.len()
    }

    /// The bytes of the document.
    pub closed spec fn text(&self) -> Seq<u8> {
        self.s@
    }

    /// The offset of the next item.
    pub closed spec fn offset(&self) -> int {
        self.pos as int
    }

    /// Start to read the document `s`.
    pub fn new(s: &'a str) -> (r: NetDocReader<'a>)
        ensures
            r.text() == s.spec_bytes(),
            r.offset() == 0,
    {
        NetDocReader { s: s.as_bytes(), pos: 0 }
    }

    /// The bytes of the document.
    pub fn bytes(&self) -> (r: &'a [u8])
        ensures
            r@ == self.text(),
    {
        self.s
    }

    /// The offset of the next item.
    pub fn position(&self) -> (r: usize)
        ensures
            r == self.offset(),
            r <= self.text().len(),
    {
        proof {
            use_type_invariant(self);
        }
        self.pos
    }

    /// Whether the whole document has been read.
    pub fn is_exhausted(&self) -> (r: bool)
        ensures
            r == (self.offset() >= self.text().len()),
    {
        self.pos >= self.s.len()
    }
}

/// Whether a section ends in front of an item with the keyword `kwd`.  The
/// annotations end at the first item that is none; the body of a
/// microdescriptor ends at the next annotation and at its second
/// `onion-key`.
pub open spec fn section_stops(kwd: Keyword, body: bool, seen_onion_key: bool) -> bool {
    if body {
        is_annotation(kwd) || (kwd == Keyword::OnionKey && seen_onion_key)
    } else {
        !is_annotation(kwd)
    }
}

/// The items of the section that starts at offset `pos`, and the offset
/// where it ends.
pub open spec fn section_items(s: Seq<u8>, pos: int, body: bool, seen_onion_key: bool) -> Result<
    (Seq<Item>, int),
    Error,
>
    decreases s.len() - pos,
{
    if pos >= s.len() {
        Ok((Seq::empty(), pos))
    } else {
        match item_at(s, pos) {
            Err(e) => Err(e),
            Ok(item) => {
                let kwd = keyword_of(s, item);
                if section_stops(kwd, body, seen_onion_key) || !(pos < item.next <= s.len()) {
                    Ok((Seq::empty(), pos))
                } else {
                    match section_items(
                        s,
                        item.next as int,
                        body,
                        seen_onion_key || kwd == Keyword::OnionKey,
                    ) {
                        Err(e) => Err(e),
                        Ok((rest, end)) => Ok((seq![item] + rest, end)),
                    }
                }
            },
        }
    }
}

/// Read the items of the section that starts at offset `pos`.
pub fn read_section(s: &[u8], pos: usize, body: bool) -> (r: Result<(Vec<Item>, usize), Error>)
    requires
        pos <= s.len(),
    ensures
        match section_items(s@, pos as int, body, false) {
            Ok((items, end)) => r is Ok && r->Ok_0.0@ == items && r->Ok_0.1 == end && pos <= end
                <= s.len(),
            Err(e) => r == Err::<(Vec<Item>, usize), Error>(e),
        },
        r is Ok ==> items_within(r->Ok_0.0@, s.len() as int),
{
    let mut items: Vec<Item> = Vec::new();
    let mut at: usize = pos;
    let mut seen: bool = false;
    loop
        invariant
            pos <= at <= s.len(),
            items_within(items@, s.len() as int),
            section_items(s@, pos as int, body, false) == (match section_items(
                s@,
                at as int,
                body,
                seen,
            ) {
                Ok((rest, end)) => Ok((items@ + rest, end)),
                Err(e) => Err(e),
            }),
        decreases s.len() - at,
    {
        if at >= s.len() {
            proof {
                assert(items@ + Seq::<Item>::empty() =~= items@);
            }
            return Ok((items, at));
        }
        let item = match read_item(s, at) {
            Ok(item) => item,
            Err(e) => {
                return Err(e);
            },
        };
        let kwd = item.keyword(s);
        let stops = if body {
            kwd.is_annotation() || (kwd == Keyword::OnionKey && seen)
        } else {
            !kwd.is_annotation()
        };
        if stops {
            proof {
                assert(items@ + Seq::<Item>::empty() =~= items@);
            }
            return Ok((items, at));
        }
        let ghost before = items@;
        items.push(item);
        proof {
            match section_items(s@, item.next as int, body, seen || kwd == Keyword::OnionKey) {
                Ok((rest, end)) => {
                    assert(before + (seq![item] + rest) =~= items@ + rest);
                },
                Err(_) => {},
            }
        }
        if kwd == Keyword::OnionKey {
            seen = true;
        }
        at = item.next;
    }
}

/// The first of the faults that the rules find with the items, in the
/// order of the rules.
pub open spec fn rules_fault(s: Seq<u8>, items: Seq<Item>, rules: Seq<Rule>, from: int) -> Option<
    Error,
>
    decreases rules.len() - from,
{
    if from >= rules.len() {
        None
    } else {
        match rule_fault(s, items, rules[from]) {
            Some(e) => Some(e),
            None => rules_fault(s, items, rules, from + 1),
        }
    }
}

/// Hold the items of a section against its rules.
pub fn check_rules(s: &[u8], items: &Vec<Item>, rules: &[Rule]) -> (r: Option<Error>)
    requires
        items_within(items@, s.len() as int),
    ensures
        r == rules_fault(s@, items@, rules@, 0),
{
    let mut i: usize = 0;
    while i < rules.len()
        invariant
            i <= rules.len(),
            items_within(items@, s.len() as int),
            rules_fault(s@, items@, rules@, 0) == rules_fault(s@, items@, rules@, i as int),
        decreases rules.len() - i,
    {
        match rules[i].check(s, items) {
            Some(e) => {
                return Some(e);
            },
            None => {},
        }
        i += 1;
    }
    None
}

/// The rules of the annotations of a microdescriptor: `@last-listed` may
/// stand once, with the time as its arguments.
pub open spec fn annotation_rules() -> Seq<Rule> {
    seq![
        Rule {
            kwd: Keyword::AnnLastListed,
            required: false,
            may_repeat: false,
            min_args: 1,
            max_args: None,
            obj: ObjKind::NoObj,
        },
    ]
}

/// The rules of the body of a microdescriptor.
pub open spec fn microdesc_rules() -> Seq<Rule> {
    seq![
        Rule {
            kwd: Keyword::OnionKey,
            required: true,
            may_repeat: false,
            min_args: 0,
            max_args: Some(0usize),
            obj: ObjKind::RequireObj,
        },
        Rule {
            kwd: Keyword::NtorOnionKey,
            required: true,
            may_repeat: false,
            min_args: 1,
            max_args: None,
            obj: ObjKind::NoObj,
        },
        Rule {
            kwd: Keyword::Family,
            required: false,
            may_repeat: false,
            min_args: 1,
            max_args: None,
            obj: ObjKind::NoObj,
        },
        Rule {
            kwd: Keyword::P,
            required: false,
            may_repeat: false,
            min_args: 2,
            max_args: None,
            obj: ObjKind::NoObj,
        },
        Rule {
            kwd: Keyword::P6,
            required: false,
            may_repeat: false,
            min_args: 2,
            max_args: None,
            obj: ObjKind::NoObj,
        },
        Rule {
            kwd: Keyword::Id,
            required: false,
            may_repeat: true,
            min_args: 2,
            max_args: None,
            obj: ObjKind::NoObj,
        },
    ]
}

/// The arguments of `item` as one text: what follows the keyword, without
/// the space in front.
pub open spec fn args_text(s: Seq<u8>, item: Item) -> Seq<u8> {
    s.subrange(word_start(s, item.kwd_end as int, item.line_end as int), item.line_end as int)
}

/// The text of the `n`-th argument of `item`, or nothing where there is no
/// such argument.
pub open spec fn arg_text(s: Seq<u8>, item: Item, n: nat) -> Seq<u8> {
    match nth_word(s, item.kwd_end as int, item.line_end as int, n) {
        Some((a, b)) => s.subrange(a, b),
        None => Seq::empty(),
    }
}

/// Annotations prepended to a microdescriptor that has been stored to
/// disk.
#[derive(Clone, Copy, Debug, PartialEq, Eq, Structural)]
pub struct MicrodescAnnotation {
    /// When the microdescriptor was last listed in a consensus.
    pub last_listed: Option<Iso8601TimeSp>,
}

/// The annotations that stand at offset `pos`, and the offset behind them.
pub open spec fn annotation_of(s: Seq<u8>, pos: int) -> Result<(MicrodescAnnotation, int), Error> {
    match section_items(s, pos, false, false) {
        Err(e) => Err(e),
        Ok((items, end)) => match rules_fault(s, items, annotation_rules(), 0) {
            Some(e) => Err(e),
            None => match find_keyword(s, items, Keyword::AnnLastListed, 0) {
                None => Ok((MicrodescAnnotation { last_listed: None }, end)),
                Some(i) => match time_of(args_text(s, items[i])) {
                    Some(t) => Ok((MicrodescAnnotation { last_listed: Some(t) }, end)),
                    None => Err(Error::BadArgument(Keyword::AnnLastListed)),
                },
            },
        },
    }
}

impl MicrodescAnnotation {
    /// Read the annotations in front of a microdescriptor.  The reader
    /// moves behind them; where they are malformed it stays where it is.
    pub fn parse_from_reader(reader: &mut NetDocReader<'_>) -> (r: Result<
        MicrodescAnnotation,
        Error,
    >)
        ensures
            final(reader).text() == old(reader).text(),
            match annotation_of(old(reader).text(), old(reader).offset()) {
                Ok((ann, end)) => r == Ok::<MicrodescAnnotation, Error>(ann) && final(reader).offset() == end,
                Err(e) => r == Err::<MicrodescAnnotation, Error>(e) && final(reader).offset()
                    == old(reader).offset(),
            },
    {
        let s = reader.bytes();
        let pos = reader.position();
        let (items, end) = match read_section(s, pos, false) {
            Ok(found) => found,
            Err(e) => {
                return Err(e);
            },
        };
        let rules = [
            Rule {
                kwd: Keyword::AnnLastListed,
                required: false,
                may_repeat: false,
                min_args: 1,
                max_args: None,
                obj: ObjKind::NoObj,
            },
        ];
        proof {
            assert(rules@ =~= annotation_rules());
        }
        match check_rules(s, &items, &rules) {
            Some(e) => {
                return Err(e);
            },
            None => {},
        }
        let last_listed = match find_item(s, &items, Keyword::AnnLastListed, 0) {
            None => None,
            Some(i) => {
                let item = &items[i];
                let a = crate::netdoc::find_word_start(s, item.kwd_end, item.line_end);
                match parse_time(s, a, item.line_end) {
                    Some(t) => Some(t),
                    None => {
                        return Err(Error::BadArgument(Keyword::AnnLastListed));
                    },
                }
            },
        };
        reader.pos = end;
        Ok(MicrodescAnnotation { last_listed })
    }
}

/// What a microdescriptor holds.
pub struct MicrodescData {
    /// The SHA-256 digest of the text of the microdescriptor.
    pub sha256: Seq<u8>,
    /// The legacy RSA onion key, in DER.
    pub tap_onion_key: Seq<u8>,
    /// The curve25519 onion key: 32 bytes.
    pub ntor_onion_key: Seq<u8>,
    /// The fingerprints of the relays in the family of this one.
    pub family: Seq<Seq<u8>>,
    /// The ports that this relay lets traffic leave to over IPv4.
    pub ipv4_policy: Seq<PortRange>,
    /// The ports that this relay lets traffic leave to over IPv6.
    pub ipv6_policy: Seq<PortRange>,
    /// The Ed25519 identity of the relay, if it names one: 32 bytes.
    pub ed25519_id: Option<Seq<u8>>,
}

/// `RSA PUBLIC KEY`
pub open spec fn text_rsa_public_key() -> Seq<u8> {
    seq![82u8, 83, 65, 32, 80, 85, 66, 76, 73, 67, 32, 75, 69, 89]
}

/// `ed25519`
pub open spec fn text_ed25519() -> Seq<u8> {
    seq![101u8, 100, 50, 53, 53, 49, 57]
}

/// Whether a key with a modulus of `bits` bits, whose exponent is the one
/// asked for or not as `exponent_ok` says, can be a TAP onion key: it has
/// 1024 bits and the exponent 65537.
pub open spec fn tap_key_ok(bits: Option<usize>, exponent_ok: Option<bool>) -> bool {
    bits == Some(1024usize) && exponent_ok == Some(true)
}

/// Whether a key with these properties can be a TAP onion key.
pub fn check_tap_key(bits: Option<usize>, exponent_ok: Option<bool>) -> (r: bool)
    ensures
        r == tap_key_ok(bits, exponent_ok),
{
    match (bits, exponent_ok) {
        (Some(n), Some(true)) => n == 1024,
        _ => false,
    }
}

/// The TAP onion key that the object of `item` holds, in DER.
pub open spec fn tap_key_of(s: Seq<u8>, item: Item) -> Result<Seq<u8>, Error> {
    match item.object {
        None => Err(Error::MissingObject(Keyword::OnionKey)),
        Some(o) => if s.subrange(o.tag_start as int, o.tag_end as int) != text_rsa_public_key() {
            Err(Error::WrongObject(Keyword::OnionKey))
        } else {
            match object_bytes(s, o.body_start as int, o.body_end as int) {
                None => Err(Error::BadObjectVal(Keyword::OnionKey)),
                Some(der) => if tap_key_ok(rsa_der_bits(der), rsa_der_exponent_is(der, 65537)) {
                    Ok(der)
                } else {
                    Err(Error::BadObjectVal(Keyword::OnionKey))
                },
            }
        },
    }
}

/// Read the TAP onion key that the object of `item` holds.
pub fn parse_tap_key(s: &[u8], item: &Item) -> (r: Result<Vec<u8>, Error>)
    requires
        item_within(*item, s.len() as int),
    ensures
        match tap_key_of(s@, *item) {
            Ok(der) => r is Ok && r->Ok_0@ == der,
            Err(e) => r == Err::<Vec<u8>, Error>(e),
        },
{
    let o = match item.object {
        Some(o) => o,
        None => {
            return Err(Error::MissingObject(Keyword::OnionKey));
        },
    };
    proof {
        assert([82u8, 83, 65, 32, 80, 85, 66, 76, 73, 67, 32, 75, 69, 89]@
            =~= text_rsa_public_key());
    }
    if !is_bytes(
        s,
        o.tag_start,
        o.tag_end,
        &[82, 83, 65, 32, 80, 85, 66, 76, 73, 67, 32, 75, 69, 89],
    ) {
        return Err(Error::WrongObject(Keyword::OnionKey));
    }
    let der = match decode_object(s, o.body_start, o.body_end) {
        Some(der) => der,
        None => {
            return Err(Error::BadObjectVal(Keyword::OnionKey));
        },
    };
    let bits = rsa_modulus_bits(der.as_slice());
    let exponent_ok = rsa_exponent_is(der.as_slice(), 65537);
    if check_tap_key(bits, exponent_ok) {
        Ok(der)
    } else {
        Err(Error::BadObjectVal(Keyword::OnionKey))
    }
}

/// The key of 32 bytes that the `n`-th argument of `item` encodes in
/// base64.
pub open spec fn key_arg_of(s: Seq<u8>, item: Item, n: nat) -> Option<Seq<u8>> {
    match nth_word(s, item.kwd_end as int, item.line_end as int, n) {
        Some((a, b)) => key32_of(base64_of(s.subrange(a, b))),
        None => None,
    }
}

/// Read the key of 32 bytes that the `n`-th argument of `item` encodes.
pub fn parse_key_arg(s: &[u8], item: &Item, n: usize) -> (r: Option<[u8; 32]>)
    requires
        item_within(*item, s.len() as int),
    ensures
        match key_arg_of(s@, *item, n as nat) {
            Some(k) => r is Some && r->0@ == k,
            None => r is None,
        },
{
    match item.arg(s, n) {
        Some((a, b)) => {
            let decoded = decode_base64(s, a, b);
            key32_from(&decoded)
        },
        None => None,
    }
}

/// The policy that the arguments of `item` state: `accept` or `reject`,
/// and a list of ports.
pub open spec fn policy_arg_of(s: Seq<u8>, item: Item) -> Option<Seq<PortRange>> {
    match (
        nth_word(s, item.kwd_end as int, item.line_end as int, 0),
        nth_word(s, item.kwd_end as int, item.line_end as int, 1),
    ) {
        (Some((a, b)), Some((c, d))) => policy_of(s.subrange(a, b), ranges_of(s, c, d, 0)),
        _ => None,
    }
}

/// Read the policy that the arguments of `item` state.
pub fn parse_policy_arg(s: &[u8], item: &Item) -> (r: Option<PortPolicy>)
    requires
        item_within(*item, s.len() as int),
    ensures
        match policy_arg_of(s@, *item) {
            Some(v) => r is Some && r->0@ == v,
            None => r is None,
        },
{
    let (a, b) = match item.arg(s, 0) {
        Some(w) => w,
        None => {
            return None;
        },
    };
    let (c, d) = match item.arg(s, 1) {
        Some(w) => w,
        None => {
            return None;
        },
    };
    let listed = parse_ranges(s, c, d);
    PortPolicy::from_listed(slice_subrange(s, a, b), listed)
}

/// The policy that the item with the keyword `kwd` states, or the policy
/// that allows nothing where there is no such item.
pub open spec fn policy_item_of(s: Seq<u8>, items: Seq<Item>, kwd: Keyword) -> Result<
    Seq<PortRange>,
    Error,
> {
    match find_keyword(s, items, kwd, 0) {
        None => Ok(Seq::empty()),
        Some(i) => match policy_arg_of(s, items[i]) {
            Some(v) => Ok(v),
            None => Err(Error::BadArgument(kwd)),
        },
    }
}

/// Read the policy that the item with the keyword `kwd` states.
pub fn parse_policy_item(s: &[u8], items: &Vec<Item>, kwd: Keyword) -> (r: Result<
    PortPolicy,
    Error,
>)
    requires
        items_within(items@, s.len() as int),
    ensures
        match policy_item_of(s@, items@, kwd) {
            Ok(v) => r is Ok && r->Ok_0@ == v,
            Err(e) => r is Err && r->Err_0 == e,
        },
{
    match find_item(s, items, kwd, 0) {
        None => Ok(PortPolicy::new_reject_all()),
        Some(i) => match parse_policy_arg(s, &items[i]) {
            Some(p) => Ok(p),
            None => Err(Error::BadArgument(kwd)),
        },
    }
}

/// The family that the item `family` states, or no family where there is
/// no such item.
pub open spec fn family_item_of(s: Seq<u8>, items: Seq<Item>) -> Result<Seq<Seq<u8>>, Error> {
    match find_keyword(s, items, Keyword::Family, 0) {
        None => Ok(Seq::empty()),
        Some(i) => match family_of(s, items[i].kwd_end as int, items[i].line_end as int) {
            Some(ids) => Ok(ids),
            None => Err(Error::BadArgument(Keyword::Family)),
        },
    }
}

/// Read the family that the item `family` states.
pub fn parse_family_item(s: &[u8], items: &Vec<Item>) -> (r: Result<Vec<[u8; 20]>, Error>)
    requires
        items_within(items@, s.len() as int),
    ensures
        match family_item_of(s@, items@) {
            Ok(ids) => r is Ok && idents_view(r->Ok_0@) == ids,
            Err(e) => r is Err && r->Err_0 == e,
        },
{
    match find_item(s, items, Keyword::Family, 0) {
        None => {
            let none: Vec<[u8; 20]> = Vec::new();
            proof {
                assert(idents_view(none@) =~= Seq::<Seq<u8>>::empty());
            }
            Ok(none)
        },
        Some(i) => match parse_family(s, items[i].kwd_end, items[i].line_end) {
            Some(ids) => Ok(ids),
            None => Err(Error::BadArgument(Keyword::Family)),
        },
    }
}

/// The index of the first item from index `from` on that is an `id` item
/// of the type `ed25519`.
pub open spec fn find_ed25519(s: Seq<u8>, items: Seq<Item>, from: int) -> Option<int>
    decreases items.len() - from,
{
    if from >= items.len() {
        None
    } else if keyword_of(s, items[from]) == Keyword::Id && arg_text(s, items[from], 0)
        == text_ed25519() {
        Some(from)
    } else {
        find_ed25519(s, items, from + 1)
    }
}

/// The Ed25519 identity that the `id` items state, if one of them has the
/// type `ed25519`.
pub open spec fn ed25519_item_of(s: Seq<u8>, items: Seq<Item>) -> Result<Option<Seq<u8>>, Error> {
    match find_ed25519(s, items, 0) {
        None => Ok(None),
        Some(i) => match key_arg_of(s, items[i], 1) {
            Some(k) => if ed25519_key_valid(k) {
                Ok(Some(k))
            } else {
                Err(Error::BadArgument(Keyword::Id))
            },
            None => Err(Error::BadArgument(Keyword::Id)),
        },
    }
}

/// Read the Ed25519 identity that the `id` items state.
pub fn parse_ed25519_item(s: &[u8], items: &Vec<Item>) -> (r: Result<Option<[u8; 32]>, Error>)
    requires
        items_within(items@, s.len() as int),
    ensures
        match ed25519_item_of(s@, items@) {
            Ok(Some(k)) => r is Ok && r->Ok_0 is Some && r->Ok_0->0@ == k,
            Ok(None) => r is Ok && r->Ok_0 is None,
            Err(e) => r is Err && r->Err_0 == e,
        },
{
    let mut i: usize = 0;
    while i < items.len()
        invariant
            i <= items.len(),
            items_within(items@, s.len() as int),
            find_ed25519(s@, items@, 0) == find_ed25519(s@, items@, i as int),
        decreases items.len() - i,
    {
        let item = &items[i];
        proof {
            assert(text_ed25519().len() == 7);
        }
        let named = match item.arg(s, 0) {
            Some((a, b)) => {
                proof {
                    assert([101u8, 100, 50, 53, 53, 49, 57]@ =~= text_ed25519());
                }
                is_bytes(s, a, b, &[101, 100, 50, 53, 53, 49, 57])
            },
            None => false,
        };
        if item.keyword(s) == Keyword::Id && named {
            return match parse_key_arg(s, item, 1) {
                Some(k) => {
                    if ed25519_key_ok(&k) {
                        Ok(Some(k))
                    } else {
                        Err(Error::BadArgument(Keyword::Id))
                    }
                },
                None => Err(Error::BadArgument(Keyword::Id)),
            };
        }
        i += 1;
    }
    Ok(None)
}

/// What the microdescriptor that starts at offset `pos` holds, and the
/// offset where it ends.  It has to start with `onion-key`; its digest is
/// taken over everything from there to the end of the document.
pub open spec fn microdesc_of(s: Seq<u8>, pos: int) -> Result<(MicrodescData, int), Error> {
    if pos >= s.len() || item_at(s, pos) is Err || keyword_of(s, item_at(s, pos)->Ok_0)
        != Keyword::OnionKey {
        Err(Error::MissingToken(Keyword::OnionKey))
    } else {
        match section_items(s, pos, true, false) {
            Err(e) => Err(e),
            Ok((items, end)) => match rules_fault(s, items, microdesc_rules(), 0) {
                Some(e) => Err(e),
                None => match tap_key_of(s, items[0]) {
                    Err(e) => Err(e),
                    Ok(tap_onion_key) => match find_keyword(s, items, Keyword::NtorOnionKey, 0) {
                        None => Err(Error::MissingToken(Keyword::NtorOnionKey)),
                        Some(n) => match key_arg_of(s, items[n], 0) {
                            None => Err(Error::BadArgument(Keyword::NtorOnionKey)),
                            Some(ntor_onion_key) => match family_item_of(s, items) {
                                Err(e) => Err(e),
                                Ok(family) => match policy_item_of(s, items, Keyword::P) {
                                    Err(e) => Err(e),
                                    Ok(ipv4_policy) => match policy_item_of(
                                        s,
                                        items,
                                        Keyword::P6,
                                    ) {
                                        Err(e) => Err(e),
                                        Ok(ipv6_policy) => match ed25519_item_of(s, items) {
                                            Err(e) => Err(e),
                                            Ok(ed25519_id) => Ok(
                                                (
                                                    MicrodescData {
                                                        sha256: sha256_digest(
                                                            s.subrange(pos, s.len() as int),
                                                        ),
                                                        tap_onion_key,
                                                        ntor_onion_key,
                                                        family,
                                                        ipv4_policy,
                                                        ipv6_policy,
                                                        ed25519_id,
                                                    },
                                                    end,
                                                ),
                                            ),
                                        },
                                    },
                                },
                            },
                        },
                    },
                },
            },
        }
    }
}

/// A single microdescriptor.
pub struct Microdesc {
    /// The SHA-256 digest of the text of this microdescriptor.
    sha256: [u8; 32],
    /// The legacy RSA onion key, in DER: 1024 bits, exponent 65537.
    tap_onion_key: Vec<u8>,
    /// The curve25519 onion key.
    ntor_onion_key: [u8; 32],
    /// The fingerprints of the relays in the family of this one.
    family: Vec<[u8; 20]>,
    /// The ports that this relay lets traffic leave to over IPv4.
    ipv4_policy: PortPolicy,
    /// The ports that this relay lets traffic leave to over IPv6.
    ipv6_policy: PortPolicy,
    /// The Ed25519 identity of the relay, if it names one.
    ed25519_id: Option<[u8; 32]>,
}

impl View for Microdesc {
    type V = MicrodescData;

    closed spec fn view(&self) -> MicrodescData {
        MicrodescData {
            sha256: self.sha256@,
            tap_onion_key: self.tap_onion_key@,
            ntor_onion_key: self.ntor_onion_key@,
            family: idents_view(self.family@),
            ipv4_policy: self.ipv4_policy@,
            ipv6_policy: self.ipv6_policy@,
            ed25519_id: match self.ed25519_id {
                Some(k) => Some(k@),
                None => None,
            },
        }
    }
}

impl Microdesc {
    /// Parse a string into a new microdescriptor.
    pub fn parse(s: &str) -> (r: Result<Microdesc, Error>)
        ensures
            match microdesc_of(s.spec_bytes(), 0) {
                Ok((data, end)) => r is Ok && r->Ok_0@ == data,
                Err(e) => r is Err && r->Err_0 == e,
            },
    {
        let mut items = NetDocReader::new(s);
        Self::parse_from_reader(&mut items)
    }

    /// Extract a single microdescriptor from a NetDocReader.  The reader
    /// moves to where the microdescriptor ends: to the next annotation, to
    /// the next `onion-key`, or to the end of the document.  Where the
    /// microdescriptor is malformed the reader stays where it is.
    pub fn parse_from_reader(reader: &mut NetDocReader<'_>) -> (r: Result<Microdesc, Error>)
        ensures
            final(reader).text() == old(reader).text(),
            match microdesc_of(old(reader).text(), old(reader).offset()) {
                Ok((data, end)) => r is Ok && r->Ok_0@ == data && final(reader).offset() == end,
                Err(e) => r is Err && r->Err_0 == e && final(reader).offset() == old(reader).offset(),
            },
    {
        let s = reader.bytes();
        let start_pos = reader.position();

        // We have to start with onion-key
        if start_pos >= s.len() {
            return Err(Error::MissingToken(Keyword::OnionKey));
        }
        match read_item(s, start_pos) {
            Ok(first) => {
                if first.keyword(s) != Keyword::OnionKey {
                    return Err(Error::MissingToken(Keyword::OnionKey));
                }
            },
            Err(_) => {
                return Err(Error::MissingToken(Keyword::OnionKey));
            },
        }

        // We'll pause at the next annotation, or at the _second_ onion key.
        let (items, end) = match read_section(s, start_pos, true) {
            Ok(found) => found,
            Err(e) => {
                return Err(e);
            },
        };
        let rules = [
            Rule {
                kwd: Keyword::OnionKey,
                required: true,
                may_repeat: false,
                min_args: 0,
                max_args: Some(0),
                obj: ObjKind::RequireObj,
            },
            Rule {
                kwd: Keyword::NtorOnionKey,
                required: true,
                may_repeat: false,
                min_args: 1,
                max_args: None,
                obj: ObjKind::NoObj,
            },
            Rule {
                kwd: Keyword::Family,
                required: false,
                may_repeat: false,
                min_args: 1,
                max_args: None,
                obj: ObjKind::NoObj,
            },
            Rule {
                kwd: Keyword::P,
                required: false,
                may_repeat: false,
                min_args: 2,
                max_args: None,
                obj: ObjKind::NoObj,
            },
            Rule {
                kwd: Keyword::P6,
                required: false,
                may_repeat: false,
                min_args: 2,
                max_args: None,
                obj: ObjKind::NoObj,
            },
            Rule {
                kwd: Keyword::Id,
                required: false,
                may_repeat: true,
                min_args: 2,
                max_args: None,
                obj: ObjKind::NoObj,
            },
        ];
        proof {
            assert(rules@ =~= microdesc_rules());
        }
        match check_rules(s, &items, &rules) {
            Some(e) => {
                return Err(e);
            },
            None => {},
        }
        proof {
            // The section starts with the item that was held against
            // `onion-key` above.
            let first = item_at(s@, start_pos as int)->Ok_0;
            assert(!section_stops(keyword_of(s@, first), true, false));
            assert(section_items(s@, start_pos as int, true, false) is Ok);
            let rest = section_items(s@, first.next as int, true, true)->Ok_0.0;
            assert(items@ == seq![first] + rest);
            assert(items@.len() > 0);
        }

        // Legacy (tap) onion key
        let tap_onion_key = match parse_tap_key(s, &items[0]) {
            Ok(k) => k,
            Err(e) => {
                return Err(e);
            },
        };

        // Ntor onion key
        let ntor_onion_key = match find_item(s, &items, Keyword::NtorOnionKey, 0) {
            None => {
                return Err(Error::MissingToken(Keyword::NtorOnionKey));
            },
            Some(n) => match parse_key_arg(s, &items[n], 0) {
                Some(k) => k,
                None => {
                    return Err(Error::BadArgument(Keyword::NtorOnionKey));
                },
            },
        };

        // family
        let family = match parse_family_item(s, &items) {
            Ok(f) => f,
            Err(e) => {
                return Err(e);
            },
        };

        // exit policies.
        let ipv4_policy = match parse_policy_item(s, &items, Keyword::P) {
            Ok(p) => p,
            Err(e) => {
                return Err(e);
            },
        };
        let ipv6_policy = match parse_policy_item(s, &items, Keyword::P6) {
            Ok(p) => p,
            Err(e) => {
                return Err(e);
            },
        };

        // ed25519 identity
        let ed25519_id = match parse_ed25519_item(s, &items) {
            Ok(id) => id,
            Err(e) => {
                return Err(e);
            },
        };

        let sha256 = sha256(slice_subrange(s, start_pos, s.len()));

        reader.pos = end;
        Ok(
            Microdesc {
                sha256,
                tap_onion_key,
                ntor_onion_key,
                family,
                ipv4_policy,
                ipv6_policy,
                ed25519_id,
            },
        )
    }

    /// The SHA-256 digest of the text of this microdescriptor.
    pub fn sha256(&self) -> (r: &[u8; 32])
        ensures
            r@ == self@.sha256,
    {
        &self.sha256
    }

    /// The legacy RSA onion key, in DER.
    pub fn tap_onion_key(&self) -> (r: &Vec<u8>)
        ensures
            r@ == self@.tap_onion_key,
    {
        &self.tap_onion_key
    }

    /// The curve25519 onion key.
    pub fn ntor_onion_key(&self) -> (r: &[u8; 32])
        ensures
            r@ == self@.ntor_onion_key,
    {
        &self.ntor_onion_key
    }

    /// The fingerprints of the relays in the family of this one.
    pub fn family(&self) -> (r: &Vec<[u8; 20]>)
        ensures
            idents_view(r@) == self@.family,
    {
        &self.family
    }

    /// The ports that this relay lets traffic leave to over IPv4.
    pub fn ipv4_policy(&self) -> (r: &PortPolicy)
        ensures
            r@ == self@.ipv4_policy,
    {
        &self.ipv4_policy
    }

    /// The ports that this relay lets traffic leave to over IPv6.
    pub fn ipv6_policy(&self) -> (r: &PortPolicy)
        ensures
            r@ == self@.ipv6_policy,
    {
        &self.ipv6_policy
    }

    /// The Ed25519 identity of the relay, if it names one.
    pub fn ed25519_id(&self) -> (r: &Option<[u8; 32]>)
        ensures
            match *r {
                Some(k) => self@.ed25519_id == Some(k@),
                None => self@.ed25519_id is None,
            },
    {
        &self.ed25519_id
    }
}

/// The digest of a microdescriptor covers the document from its
/// `onion-key` keyword to the end, and is what SHA-256 makes of those
/// bytes.
pub proof fn law_digest_starts_at_onion_key(s: Seq<u8>, pos: int)
    requires
        0 <= pos,
        s.len() <= usize::MAX,
        microdesc_of(s, pos) is Ok,
    ensures
        crate::netdoc::stands_at(s, pos, text_onion_key()),
        microdesc_of(s, pos)->Ok_0.0.sha256 == sha256_digest(s.subrange(pos, s.len() as int)),
{
    let item = item_at(s, pos)->Ok_0;
    crate::netdoc::lemma_item_within(s, pos);
    let k = s.subrange(item.start as int, item.kwd_end as int);
    assert(k == text_onion_key());
    assert(k.len() == 9);
    assert(s.subrange(pos, pos + 9) =~= k);
}

} // verus!
