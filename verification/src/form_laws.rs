//! The forms of names, digits and paths, letter by letter, the order of grants,
//! and when documents are equal.

use vstd::prelude::*;
use vstd::utf8::*;

use crate::effect::{grant_precedes, AuthorityGrantSet};
use crate::hex::hex_of;
use crate::implementation_plan::ids::{
    descends, is_commit, is_item_id, is_plan_text, workspace_path_failure,
};
use crate::json::{equal_json, json_text, JsonAbs};
use crate::package::{is_package_id, is_package_path};
use crate::text::{
    pieces, pieces_extended, pieces_nonempty, precedes, precedes_irreflexive, precedes_transitive,
};

verus! {

/// A character that an identifier may hold.
pub open spec fn is_name_char(c: char) -> bool {
    'a' <= c <= 'z' || '0' <= c <= '9' || c == '-' || c == '_' || c == '.'
}

/// Whether a text is a small letter and up to 127 characters of identifiers
/// behind it.
pub open spec fn is_name(s: Seq<char>) -> bool {
    1 <= s.len() <= 128 && 'a' <= s[0] <= 'z' && forall|i: int|
        0 <= i < s.len() ==> is_name_char(#[trigger] s[i])
}

/// Packages and the items of plans have identifiers of one form.
pub proof fn identifiers_have_one_form(s: Seq<char>)
    ensures
        is_package_id(s) <==> is_name(s),
        is_item_id(s) <==> is_name(s),
{
    if is_name(s) {
        assert forall|i: int| 0 <= i < s.len() implies crate::package::is_package_char(
            #[trigger] s[i],
        ) by {
            assert(is_name_char(s[i]));
        }
    }
    if is_package_id(s) {
        assert forall|i: int| 0 <= i < s.len() implies is_name_char(#[trigger] s[i]) by {
            assert(crate::package::is_package_char(s[i]));
        }
    }
}

/// A commit is named by 40 or 64 hexadecimal digits, and no capital is among
/// them.
pub proof fn commits_are_named_by_digits(s: Seq<char>)
    ensures
        is_commit(s) <==> (s.len() == 40 || s.len() == 64) && forall|i: int|
            0 <= i < s.len() ==> '0' <= #[trigger] s[i] <= '9' || 'a' <= s[i] <= 'f',
{
    if is_commit(s) {
        assert forall|i: int| 0 <= i < s.len() implies ('0' <= #[trigger] s[i] <= '9' || 'a' <= s[i]
            <= 'f') by {
            assert(crate::text::is_lower_hex(s[i]));
        }
    } else if s.len() == 40 || s.len() == 64 {
        let j = choose|j: int| 0 <= j < s.len() && !crate::text::is_lower_hex(#[trigger] s[j]);
        assert(!('0' <= s[j] <= '9' || 'a' <= s[j] <= 'f'));
    }
}

/// A character that is shown: none of the 65 that control.
pub open spec fn is_plain(c: char) -> bool {
    0x20 <= c as u32 <= 0x7E || 0xA0 <= c as u32
}

/// The text of a plan is not empty, takes 16 KiB at most, and of the control
/// characters it holds line feeds and tabs alone.
pub proof fn plan_texts_are_bounded(s: Seq<char>)
    ensures
        is_plan_text(s) <==> {
            &&& s.len() > 0
            &&& encode_utf8(s).len() <= 16_384
            &&& forall|i: int|
                0 <= i < s.len() ==> #[trigger] s[i] == '\n' || s[i] == '\t' || is_plain(s[i])
        },
{
    if forall|i: int|
        0 <= i < s.len() ==> #[trigger] s[i] == '\n' || s[i] == '\t' || is_plain(s[i]) {
    } else {
        let j = choose|i: int|
            0 <= i < s.len() && !(#[trigger] s[i] == '\n' || s[i] == '\t' || is_plain(s[i]));
        let c = s[j];
        assert(crate::text::is_control(c) && c != '\n' && c != '\t');
    }
}

/// The digit of a half byte, by counting.
pub open spec fn is_digit_of(c: char, n: int) -> bool {
    if n < 10 {
        c as u32 == '0' as u32 + n
    } else {
        c as u32 == 'a' as u32 + (n - 10)
    }
}

/// Each byte is written in two digits, the higher one first.
pub proof fn bytes_take_two_digits(bytes: Seq<u8>)
    ensures
        hex_of(bytes).len() == 2 * bytes.len(),
        forall|i: int|
            0 <= i < bytes.len() ==> is_digit_of(
                hex_of(bytes)[2 * i],
                #[trigger] bytes[i] as int / 16,
            ) && is_digit_of(hex_of(bytes)[2 * i + 1], bytes[i] as int % 16),
{
    reveal(hex_of);
    assert forall|i: int| 0 <= i < bytes.len() implies is_digit_of(
        hex_of(bytes)[2 * i],
        #[trigger] bytes[i] as int / 16,
    ) && is_digit_of(hex_of(bytes)[2 * i + 1], bytes[i] as int % 16) by {
        assert((2 * i) / 2 == i && (2 * i) % 2 == 0);
        assert((2 * i + 1) / 2 == i && (2 * i + 1) % 2 == 1);
        assert(0 <= bytes[i] as int / 16 < 16);
        assert(0 <= bytes[i] as int % 16 < 16);
    }
}

// ---------------------------------------------------------------------------
// Paths
// ---------------------------------------------------------------------------

/// The pieces of two texts with a separator between them are those of both.
pub proof fn pieces_of_both(a: Seq<char>, b: Seq<char>, separator: char)
    ensures
        pieces(a + seq![separator] + b, separator) == pieces(a, separator) + pieces(b, separator),
    decreases b.len(),
{
    let s = a + seq![separator] + b;
    pieces_nonempty(b, separator);
    if b.len() == 0 {
        assert(s.drop_last() =~= a);
        assert(pieces(s, separator) =~= pieces(a, separator) + pieces(b, separator));
    } else {
        let c = b.drop_last();
        pieces_of_both(a, c, separator);
        pieces_nonempty(c, separator);
        assert(s.drop_last() =~= a + seq![separator] + c);
        assert(s.last() == b.last());
        let p = pieces(a, separator);
        let q = pieces(c, separator);
        assert((p + q).last() == q.last());
        assert((p + q).drop_last() =~= p + q.drop_last());
        assert(pieces(s, separator) =~= p + pieces(b, separator));
    }
}

/// A text without separators is its only piece.
proof fn lemma_one_piece(s: Seq<char>, separator: char)
    requires
        !s.contains(separator),
    ensures
        pieces(s, separator) == seq![s],
{
    let none = Seq::<char>::empty();
    pieces_extended(none, s, separator);
    assert(none + s =~= s);
    assert(pieces(none, separator) == seq![none]);
    assert(pieces(none, separator).last() + s =~= s);
    assert(pieces(s, separator) =~= seq![s]);
}

/// A name alone is a path in a package where it is not empty and leads
/// somewhere, without backslashes, colons and control characters; a longer path
/// is one where both its parts are.
pub proof fn package_paths_are_made_of_names(a: Seq<char>, b: Seq<char>)
    ensures
        !a.contains('/') ==> (is_package_path(a) <==> {
            &&& a.len() > 0
            &&& a != seq!['.']
            &&& a != seq!['.', '.']
            &&& forall|i: int|
                0 <= i < a.len() ==> #[trigger] a[i] != '\\' && a[i] != ':' && is_plain(a[i])
        }),
        is_package_path(a + seq!['/'] + b) <==> is_package_path(a) && is_package_path(b),
{
    if !a.contains('/') {
        lemma_one_piece(a, '/');
        assert(pieces(a, '/')[0] == a);
        if is_package_path(a) {
            assert forall|i: int| 0 <= i < a.len() implies #[trigger] a[i] != '\\' && a[i] != ':'
                && is_plain(a[i]) by {
                assert(a.contains(a[i]));
                assert(!crate::text::is_control(a[i]));
            }
        }
    }
    let s = a + seq!['/'] + b;
    pieces_of_both(a, b, '/');
    let p = pieces(a, '/');
    let q = pieces(b, '/');
    if is_package_path(s) {
        assert forall|i: int| 0 <= i < a.len() implies !crate::text::is_control(#[trigger] a[i])
            && a[i] != '\\' && a[i] != ':' by {
            assert(s[i] == a[i]);
            assert(s.contains(s[i]));
        }
        assert forall|i: int| 0 <= i < b.len() implies !crate::text::is_control(#[trigger] b[i])
            && b[i] != '\\' && b[i] != ':' by {
            assert(s[a.len() + 1 + i] == b[i]);
            assert(s.contains(s[a.len() + 1 + i]));
        }
        assert forall|k: int| 0 <= k < p.len() implies crate::package::is_path_component(
            #[trigger] p[k],
        ) by {
            assert((p + q)[k] == p[k]);
        }
        assert forall|k: int| 0 <= k < q.len() implies crate::package::is_path_component(
            #[trigger] q[k],
        ) by {
            assert((p + q)[p.len() + k] == q[k]);
        }
    }
    if is_package_path(a) && is_package_path(b) {
        assert forall|i: int| 0 <= i < s.len() implies !crate::text::is_control(#[trigger] s[i])
            && s[i] != '\\' && s[i] != ':' by {
            if i < a.len() {
                assert(s[i] == a[i]);
                assert(a.contains(a[i]));
            } else if i > a.len() {
                assert(s[i] == b[i - a.len() - 1]);
                assert(b.contains(b[i - a.len() - 1]));
            }
        }
        assert forall|k: int| 0 <= k < (p + q).len() implies crate::package::is_path_component(
            #[trigger] (p + q)[k],
        ) by {
            if k < p.len() {
                assert((p + q)[k] == p[k]);
            } else {
                assert((p + q)[k] == q[k - p.len()]);
            }
        }
    }
}

/// A text is a path in a workspace where it is not empty, takes 512 bytes at
/// most, holds no backslash, and is the root or leads downwards.
pub proof fn workspace_paths_are_bounded(s: Seq<char>)
    ensures
        workspace_path_failure(s) is None <==> {
            &&& s.len() > 0
            &&& encode_utf8(s).len() <= 512
            &&& forall|i: int| 0 <= i < s.len() ==> #[trigger] s[i] != '\\'
            &&& s == seq!['.'] || descends(s)
        },
{
    reveal_strlit(".");
    assert("."@ =~= seq!['.']);
    if s.contains('\\') {
        let i = choose|i: int| 0 <= i < s.len() && s[i] == '\\';
        assert(s[i] == '\\');
    }
}

/// A name leads downwards unless it is empty or stays or leads upwards; a longer
/// path where its first part does and no name behind it is empty or leads
/// upwards.
pub proof fn descending_paths_are_made_of_names(a: Seq<char>, name: Seq<char>)
    requires
        !name.contains('/'),
    ensures
        descends(name) <==> name.len() > 0 && name != seq!['.'] && name != seq!['.', '.'],
        descends(a + seq!['/'] + name) <==> descends(a) && name.len() > 0 && name != seq!['.', '.'],
{
    reveal_strlit(".");
    reveal_strlit("..");
    assert("."@ =~= seq!['.']);
    assert(".."@ =~= seq!['.', '.']);
    lemma_one_piece(name, '/');
    assert(pieces(name, '/')[0] == name);
    pieces_of_both(a, name, '/');
    pieces_nonempty(a, '/');
    let p = pieces(a, '/');
    let all = p + seq![name];
    assert(all[p.len() as int] == name);
    assert(all[0] == p[0]);
    if descends(a + seq!['/'] + name) {
        assert forall|i: int| 0 <= i < p.len() implies (#[trigger] p[i]).len() > 0 && p[i]
            != ".."@ by {
            assert(all[i] == p[i]);
        }
    }
    if descends(a) && name.len() > 0 && name != seq!['.', '.'] {
        assert forall|i: int| 0 <= i < all.len() implies (#[trigger] all[i]).len() > 0 && all[i]
            != ".."@ by {
            if i < p.len() {
                assert(all[i] == p[i]);
            }
        }
    }
}

// ---------------------------------------------------------------------------
// Grants
// ---------------------------------------------------------------------------

/// Grants are in order exactly when of any two the one in front has the lesser
/// effect or, with the same effect, the lesser text of its scope; none stands
/// there twice.
pub proof fn grants_are_sorted(grants: AuthorityGrantSet)
    ensures
        grants.is_ordered() <==> forall|i: int, j: int|
            0 <= i < j < grants.0@.len() ==> precedes(
                (#[trigger] grants.0@[i]).effect@,
                (#[trigger] grants.0@[j]).effect@,
            ) || (grants.0@[i].effect@ == grants.0@[j].effect@ && precedes(
                json_text(grants.0@[i].scope@),
                json_text(grants.0@[j].scope@),
            )),
        grants.is_ordered() ==> forall|i: int, j: int|
            0 <= i < j < grants.0@.len() ==> (#[trigger] grants.0@[i]).effect@
                != (#[trigger] grants.0@[j]).effect@ || grants.0@[i].scope@ != grants.0@[j].scope@,
{
    if grants.is_ordered() {
        assert forall|i: int, j: int| 0 <= i < j < grants.0@.len() implies grant_precedes(
            #[trigger] grants.0@[i],
            #[trigger] grants.0@[j],
        ) && (grants.0@[i].effect@ != grants.0@[j].effect@ || grants.0@[i].scope@
            != grants.0@[j].scope@) by {
            lemma_later_grant(grants, i, j);
            precedes_irreflexive(grants.0@[i].effect@);
            precedes_irreflexive(json_text(grants.0@[i].scope@));
        }
        assert forall|i: int, j: int| 0 <= i < j < grants.0@.len() implies (precedes(
            (#[trigger] grants.0@[i]).effect@,
            (#[trigger] grants.0@[j]).effect@,
        ) || (grants.0@[i].effect@ == grants.0@[j].effect@ && precedes(
            json_text(grants.0@[i].scope@),
            json_text(grants.0@[j].scope@),
        ))) by {
            assert(grant_precedes(grants.0@[i], grants.0@[j]));
        }
    } else {
        let i = choose|i: int|
            0 <= i < grants.0@.len() - 1 && !grant_precedes(
                #[trigger] grants.0@[i],
                grants.0@[i + 1],
            );
        let one = grants.0@[i];
        let next = grants.0@[i + 1];
        assert(!grant_precedes(one, next));
    }
}

proof fn lemma_later_grant(grants: AuthorityGrantSet, i: int, j: int)
    requires
        grants.is_ordered(),
        0 <= i < j < grants.0@.len(),
    ensures
        grant_precedes(grants.0@[i], grants.0@[j]),
    decreases j - i,
{
    let a = grants.0@[i];
    let b = grants.0@[j - 1];
    let c = grants.0@[j];
    assert(grant_precedes(grants.0@[j - 1], grants.0@[j - 1 + 1]));
    if i < j - 1 {
        lemma_later_grant(grants, i, j - 1);
        if precedes(a.effect@, b.effect@) && precedes(b.effect@, c.effect@) {
            precedes_transitive(a.effect@, b.effect@, c.effect@);
        } else if a.effect@ == b.effect@ && b.effect@ == c.effect@ && precedes(
            json_text(a.scope@),
            json_text(b.scope@),
        ) && precedes(json_text(b.scope@), json_text(c.scope@)) {
            precedes_transitive(json_text(a.scope@), json_text(b.scope@), json_text(c.scope@));
        }
    }
}

// ---------------------------------------------------------------------------
// Documents
// ---------------------------------------------------------------------------

/// Whether a document holds no zero that is written with a fraction.
pub open spec fn has_no_fractional_zero(value: JsonAbs) -> bool
    decreases value,
{
    match value {
        JsonAbs::Number(n) => n != "0.0"@ && n != "-0.0"@,
        JsonAbs::Array(items) => forall|i: int|
            #![trigger items[i]]
            0 <= i < items.len() ==> has_no_fractional_zero(items[i]),
        JsonAbs::Object(members) => forall|i: int|
            #![trigger members[i]]
            0 <= i < members.len() ==> has_no_fractional_zero(members[i].1),
        _ => true,
    }
}

/// A document is equal to itself and, but for the sign of a zero with a
/// fraction, to no other.
pub proof fn equal_documents_are_the_same(left: JsonAbs, right: JsonAbs)
    ensures
        equal_json(left, left),
        has_no_fractional_zero(left) && equal_json(left, right) ==> left == right,
        equal_json(JsonAbs::Number("0.0"@), JsonAbs::Number("-0.0"@)),
    decreases left,
{
    match left {
        JsonAbs::Array(a) => {
            assert forall|i: int| 0 <= i < a.len() implies equal_json(#[trigger] a[i], a[i]) by {
                equal_documents_are_the_same(a[i], a[i]);
            }
            if has_no_fractional_zero(left) && equal_json(left, right) {
                let b = right->Array_0;
                assert forall|i: int| 0 <= i < a.len() implies #[trigger] a[i] == b[i] by {
                    equal_documents_are_the_same(a[i], b[i]);
                }
                assert(a =~= b);
            }
        },
        JsonAbs::Object(a) => {
            assert forall|i: int| 0 <= i < a.len() implies equal_json(
                (#[trigger] a[i]).1,
                a[i].1,
            ) by {
                equal_documents_are_the_same(a[i].1, a[i].1);
            }
            if has_no_fractional_zero(left) && equal_json(left, right) {
                let b = right->Object_0;
                assert forall|i: int| 0 <= i < a.len() implies #[trigger] a[i] == b[i] by {
                    equal_documents_are_the_same(a[i].1, b[i].1);
                }
                assert(a =~= b);
            }
        },
        _ => {},
    }
}

} // verus!
