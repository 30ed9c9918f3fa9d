//! Names that the handler-registration attribute derives from a guest
//! function's name: the Pascal-case struct and trait names, the generated
//! module names and the name under which the function is exported.

use vstd::prelude::*;
use vstd::string::*;
use crate::text::{interleave, lacks, lemma_interleave_lacks, lemma_replace_after_untouched, lemma_replace_interleave, lemma_replace_untouched, replace_all, replace_all_chars, chars_of, flatten, lemma_split_nonempty, split_chars, split_seq, string_from_chars};

verus! {

/// What `char::to_uppercase` yields for `c`.
pub uninterp spec fn uppercase_mapping(c: char) -> Seq<char>;

/// Whether `c` is an ASCII lowercase letter.
pub open spec fn is_ascii_lower(c: char) -> bool {
    'a' <= c && c <= 'z'
}

/// The uppercase ASCII letter of an ASCII lowercase letter.
pub open spec fn ascii_upper_of(c: char) -> char {
    ((c as u32) - 32) as char
}

/// The uppercase mapping of `c` (`char::to_uppercase`), collected.
/// The standard library documents that a character without an uppercase
/// mapping maps to itself, and ASCII lowercase letters map to their ASCII
/// uppercase letter; those two facts are stated for ASCII characters. Of
/// other characters only the name `uppercase_mapping` is stated.
#[verifier::external_body]
fn uppercase_chars(c: char) -> (r: Vec<char>)
    ensures
        r@ == uppercase_mapping(c),
        is_ascii_lower(c) ==> r@ == seq![ascii_upper_of(c)],
        (c as u32) < 128 && !is_ascii_lower(c) ==> r@ == seq![c],
{
    c.to_uppercase().collect()
}

/// `w` with its first character replaced by its uppercase mapping.
pub open spec fn capitalized(w: Seq<char>) -> Seq<char> {
    if w.len() == 0 {
        Seq::<char>::empty()
    } else {
        uppercase_mapping(w[0]) + w.skip(1)
    }
}

/// `c` with an ASCII lowercase letter turned into its capital.
pub open spec fn ascii_upper_or_same(c: char) -> char {
    if is_ascii_lower(c) {
        ascii_upper_of(c)
    } else {
        c
    }
}

/// `w` with its first character turned into its ASCII capital, where it
/// is an ASCII lowercase letter.
pub open spec fn ascii_capitalized(w: Seq<char>) -> Seq<char> {
    if w.len() == 0 {
        Seq::<char>::empty()
    } else {
        seq![ascii_upper_or_same(w[0])] + w.skip(1)
    }
}

/// Whether every character of `s` is ASCII.
pub open spec fn is_ascii_text(s: Seq<char>) -> bool {
    forall|i: int| 0 <= i < s.len() ==> (#[trigger] s[i] as u32) < 128
}

/// Whether `w` is empty or starts with an ASCII character.
pub open spec fn ascii_head(w: Seq<char>) -> bool {
    w.len() == 0 || (w[0] as u32) < 128
}

/// The Pascal-case form of an ASCII `s`: its `_`-separated fields, each
/// with its first letter capitalized, joined without separators.
pub open spec fn ascii_pascal_of(s: Seq<char>) -> Seq<char> {
    flatten(split_seq(s, '_').map_values(|w: Seq<char>| ascii_capitalized(w)))
}

/// Every field of a split of an ASCII text is ASCII.
proof fn lemma_split_fields_ascii(s: Seq<char>, sep: char)
    requires
        is_ascii_text(s),
    ensures
        forall|i: int| 0 <= i < split_seq(s, sep).len() ==> is_ascii_text(#[trigger] split_seq(s, sep)[i]),
    decreases s.len(),
{
    if s.len() > 0 {
        let d = s.drop_last();
        assert forall|i: int| 0 <= i < d.len() implies (#[trigger] d[i] as u32) < 128 by {
            assert(d[i] == s[i]);
        }
        lemma_split_fields_ascii(d, sep);
        lemma_split_nonempty(d, sep);
        let rest = split_seq(d, sep);
        assert((s[s.len() - 1] as u32) < 128);
        if s.last() != sep {
            let f = rest.last().push(s.last());
            assert(is_ascii_text(rest[rest.len() - 1]));
            assert forall|j: int| 0 <= j < f.len() implies (#[trigger] f[j] as u32) < 128 by {
                if j < f.len() - 1 {
                    assert(f[j] == rest.last()[j]);
                }
            }
            assert forall|i: int| 0 <= i < split_seq(s, sep).len() implies is_ascii_text(#[trigger] split_seq(s, sep)[i]) by {
                if i < rest.len() - 1 {
                    assert(split_seq(s, sep)[i] == rest[i]);
                } else {
                    assert(split_seq(s, sep)[i] == f);
                }
            }
        } else {
            assert forall|i: int| 0 <= i < split_seq(s, sep).len() implies is_ascii_text(#[trigger] split_seq(s, sep)[i]) by {
                if i < rest.len() {
                    assert(split_seq(s, sep)[i] == rest[i]);
                } else {
                    assert(split_seq(s, sep)[i] =~= Seq::<char>::empty());
                }
            }
        }
    }
}

/// The Pascal-case form of `s`: its `_`-separated fields, each capitalized,
/// joined without separators.
pub open spec fn pascal_case_of(s: Seq<char>) -> Seq<char> {
    flatten(split_seq(s, '_').map_values(|w: Seq<char>| capitalized(w)))
}

/// `s` with every `_` turned into `-`.
pub open spec fn dashed(s: Seq<char>) -> Seq<char> {
    s.map_values(|c: char| if c == '_' { '-' } else { c })
}

fn capitalized_chars(w: &Vec<char>) -> (r: Vec<char>)
    ensures
        r@ == capitalized(w@),
        ascii_head(w@) ==> r@ == ascii_capitalized(w@),
{
    if w.len() == 0 {
        return Vec::new();
    }
    let mut r = uppercase_chars(w[0]);
    let ghost head = r@;
    let mut i: usize = 1;
    while i < w.len()
        invariant
            1 <= i <= w.len(),
            r@ == head + w@.subrange(1, i as int),
        decreases w.len() - i,
    {
        r.push(w[i]);
        i = i + 1;
        assert(r@ =~= head + w@.subrange(1, i as int));
    }
    assert(w@.subrange(1, w@.len() as int) =~= w@.skip(1));
    proof {
        if (w@[0] as u32) < 128 {
            assert(head == seq![ascii_upper_or_same(w@[0])]);
        }
    }
    r
}

/// Uppercases the first character of `s` and keeps the rest.
pub fn capitalize_first_letter(s: &str) -> (r: String)
    ensures
        r@ == capitalized(s@),
        ascii_head(s@) ==> r@ == ascii_capitalized(s@),
{
    let cs = chars_of(s);
    let up = capitalized_chars(&cs);
    string_from_chars(&up)
}

/// Splits `s` on `_`, capitalizes every field and joins the fields.
pub fn pascal_case(s: &str) -> (r: String)
    ensures
        r@ == pascal_case_of(s@),
        is_ascii_text(s@) ==> r@ == ascii_pascal_of(s@),
{
    let cs = chars_of(s);
    let fields = split_chars(&cs, '_');
    let ghost caps = fields.deep_view().map_values(|w: Seq<char>| capitalized(w));
    let mut out: Vec<char> = Vec::new();
    let mut i: usize = 0;
    while i < fields.len()
        invariant
            i <= fields.len(),
            caps == fields.deep_view().map_values(|w: Seq<char>| capitalized(w)),
            out@ == flatten(caps.take(i as int)),
            forall|j: int|
                0 <= j < i ==> (ascii_head(fields.deep_view()[j]) ==> #[trigger] caps[j]
                    == ascii_capitalized(fields.deep_view()[j])),
        decreases fields.len() - i,
    {
        assert(fields[i as int].deep_view() =~= fields[i as int]@);
        let piece = capitalized_chars(&fields[i]);
        let mut j: usize = 0;
        let ghost start = out@;
        while j < piece.len()
            invariant
                j <= piece.len(),
                out@ == start + piece@.take(j as int),
            decreases piece.len() - j,
        {
            out.push(piece[j]);
            j = j + 1;
            assert(out@ =~= start + piece@.take(j as int));
        }
        assert(piece@.take(piece.len() as int) =~= piece@);
        assert(caps.take(i + 1).drop_last() =~= caps.take(i as int));
        i = i + 1;
    }
    assert(caps.take(fields.len() as int) =~= caps);
    proof {
        if is_ascii_text(s@) {
            lemma_split_fields_ascii(s@, '_');
            assert(cs@ == s@);
            let fs = fields.deep_view();
            assert forall|j: int| 0 <= j < fs.len() implies ascii_head(#[trigger] fs[j]) by {
                assert(is_ascii_text(split_seq(s@, '_')[j]));
                if fs[j].len() > 0 {
                    assert((fs[j][0] as u32) < 128);
                }
            }
            assert(caps =~= fs.map_values(|w: Seq<char>| ascii_capitalized(w)));
        }
    }
    string_from_chars(&out)
}

/// Turns a Rust function name into the name its wasm export carries:
/// every `_` becomes `-`.
pub fn func_name_to_abi_name(name: &str) -> (r: String)
    ensures
        r@ == dashed(name@),
{
    let cs = chars_of(name);
    let mut out: Vec<char> = Vec::new();
    let mut i: usize = 0;
    while i < cs.len()
        invariant
            i <= cs.len(),
            out@ == dashed(cs@.take(i as int)),
        decreases cs.len() - i,
    {
        let c = cs[i];
        out.push(if c == '_' { '-' } else { c });
        i = i + 1;
        assert(out@ =~= dashed(cs@.take(i as int)));
    }
    assert(cs@.take(cs.len() as int) =~= cs@);
    string_from_chars(&out)
}

/// The names generated for a guest handler function.
pub struct HandlerNames {
    /// The Pascal-case name of the generated struct.
    pub struct_name: String,
    /// The name of the generated bindings module.
    pub mod_name: String,
    /// The Pascal-case name of the trait the bindings module declares.
    pub trait_name: String,
    /// The name of the module that implements that trait.
    pub internal_mod: String,
    /// The name under which the handler is exported from the wasm module.
    pub export_name: String,
}

/// The suffix that names the bindings module.
pub open spec fn mod_suffix() -> Seq<char> {
    seq!['_', 'm', 'o', 'd']
}

/// The suffix that names the implementing module.
pub open spec fn internal_suffix() -> Seq<char> {
    seq!['_', 'i', 'n', 't', 'e', 'r', 'n', 'a', 'l']
}

/// Derives every generated name from the handler function's name.
pub fn handler_names(func_name: &str) -> (r: HandlerNames)
    ensures
        r.struct_name@ == pascal_case_of(func_name@),
        r.mod_name@ == func_name@ + mod_suffix(),
        r.trait_name@ == pascal_case_of(func_name@ + mod_suffix()),
        r.internal_mod@ == func_name@ + mod_suffix() + internal_suffix(),
        r.export_name@ == dashed(func_name@),
        is_ascii_text(func_name@) ==> r.struct_name@ == ascii_pascal_of(func_name@)
            && r.trait_name@ == ascii_pascal_of(func_name@ + mod_suffix()),
{
    let struct_name = pascal_case(func_name);
    proof {
        reveal_strlit("_mod");
        reveal_strlit("_internal");
    }
    let mod_name = String::from_str(func_name).concat("_mod");
    proof {
        assert("_mod"@ =~= mod_suffix());
        if is_ascii_text(func_name@) {
            let m = func_name@ + mod_suffix();
            assert forall|i: int| 0 <= i < m.len() implies (#[trigger] m[i] as u32) < 128 by {
                if i < func_name@.len() {
                    assert(m[i] == func_name@[i]);
                }
            }
        }
    }
    let trait_name = pascal_case(mod_name.as_str());
    let internal_mod = String::from_str(mod_name.as_str()).concat("_internal");
    let export_name = func_name_to_abi_name(func_name);
    assert("_mod"@ =~= mod_suffix());
    assert("_internal"@ =~= internal_suffix());
    HandlerNames { struct_name, mod_name, trait_name, internal_mod, export_name }
}

/// The trait name of a handler is its struct name followed by the
/// capitalized word `mod`: appending `_mod` to a name appends one field to
/// its `_`-separated fields.
pub proof fn lemma_trait_name_extends_struct_name(f: Seq<char>)
    ensures
        pascal_case_of(f + mod_suffix()) == pascal_case_of(f) + capitalized(seq!['m', 'o', 'd']),
{
    let s1 = f + seq!['_'];
    let s2 = f + seq!['_', 'm'];
    let s3 = f + seq!['_', 'm', 'o'];
    let s4 = f + mod_suffix();
    assert(s1.drop_last() =~= f);
    assert(s2.drop_last() =~= s1);
    assert(s3.drop_last() =~= s2);
    assert(s4.drop_last() =~= s3);
    lemma_split_nonempty(f, '_');
    let base = split_seq(f, '_');
    assert(split_seq(s1, '_') == base.push(Seq::<char>::empty()));
    assert(split_seq(s2, '_') =~= base.push(seq!['m']));
    assert(s3.last() == 'o');
    assert(seq!['m'].push('o') =~= seq!['m', 'o']);
    assert(split_seq(s3, '_') =~= base.push(seq!['m', 'o']));
    assert(s4.last() == 'd');
    assert(seq!['m', 'o'].push('d') =~= seq!['m', 'o', 'd']);
    assert(split_seq(s4, '_') =~= base.push(seq!['m', 'o', 'd']));
    let cap = |w: Seq<char>| capitalized(w);
    assert(base.push(seq!['m', 'o', 'd']).map_values(cap) =~= base.map_values(cap).push(
        capitalized(seq!['m', 'o', 'd']),
    ));
    assert(base.map_values(cap).push(capitalized(seq!['m', 'o', 'd'])).drop_last()
        =~= base.map_values(cap));
}

/// The bindings text generated for the handler interface, rewritten for the
/// handler function `f`: its name in place of `handle_http`, its export
/// name in place of `handle-http`, and the path of its struct in the
/// implementing module in place of the path of the bindings' trait.
pub open spec fn bindings_rewritten(contents: Seq<char>, f: Seq<char>) -> Seq<char> {
    let step1 = replace_all(contents, "handle_http"@, f);
    let step2 = replace_all(step1, "handle-http"@, dashed(f));
    replace_all(
        step2,
        "super::"@ + pascal_case_of(f + mod_suffix()),
        "super::"@ + f + mod_suffix() + internal_suffix() + "::"@ + pascal_case_of(f),
    )
}

/// Rewrites the bindings text generated for the handler interface for the
/// handler function `func_name`.
pub fn rewrite_bindings(contents: &str, func_name: &str) -> (r: String)
    ensures
        r@ == bindings_rewritten(contents@, func_name@),
{
    proof {
        reveal_strlit("handle_http");
        reveal_strlit("handle-http");
        reveal_strlit("super::");
        reveal_strlit("::");
    }
    let names = handler_names(func_name);
    let c = chars_of(contents);
    let f = chars_of(func_name);
    let step1 = replace_all_chars(&c, &chars_of("handle_http"), &f);
    let step2 = replace_all_chars(&step1, &chars_of("handle-http"), &chars_of(names.export_name.as_str()));
    let old_path = String::from_str("super::").concat(names.trait_name.as_str());
    let new_path = String::from_str("super::").concat(names.internal_mod.as_str()).concat("::").concat(
        names.struct_name.as_str(),
    );
    let old_chars = chars_of(old_path.as_str());
    assert(old_chars@.len() > 0);
    let step3 = replace_all_chars(&step2, &old_chars, &chars_of(new_path.as_str()));
    assert(new_path@ =~= "super::"@ + func_name@ + mod_suffix() + internal_suffix() + "::"@
        + pascal_case_of(func_name@));
    string_from_chars(&step3)
}

/// Every `handle_http` of the bindings text is renamed to the handler
/// function's name, wherever it stands, and the text around the
/// occurrences is kept: for pieces of text without `h` or `s` joined by
/// `handle_http`, and a function name without `h` or `s`, the rewritten
/// text is the same pieces joined by the function name.
pub proof fn lemma_rewrite_renames_every_handle_http(pieces: Seq<Seq<char>>, f: Seq<char>)
    requires
        forall|k: int| 0 <= k < pieces.len() ==> lacks(#[trigger] pieces[k], 'h') && lacks(pieces[k], 's'),
        lacks(f, 'h'),
        lacks(f, 's'),
    ensures
        bindings_rewritten(interleave(pieces, "handle_http"@), f) == interleave(pieces, f),
{
    reveal_strlit("handle_http");
    reveal_strlit("handle-http");
    reveal_strlit("super::");
    let p1 = "handle_http"@;
    let p2 = "handle-http"@;
    let p3 = "super::"@ + pascal_case_of(f + mod_suffix());
    assert(p1[0] == 'h' && p2[0] == 'h' && p3[0] == 's');
    assert forall|k: int| 0 <= k < pieces.len() implies lacks(#[trigger] pieces[k], p1[0]) by {}
    lemma_replace_interleave(pieces, p1, f);
    let out = interleave(pieces, f);
    assert forall|k: int| 0 <= k < pieces.len() implies lacks(#[trigger] pieces[k], 'h') by {}
    assert forall|k: int| 0 <= k < pieces.len() implies lacks(#[trigger] pieces[k], 's') by {}
    lemma_interleave_lacks(pieces, f, 'h');
    lemma_interleave_lacks(pieces, f, 's');
    lemma_replace_untouched(out, p2, dashed(f));
    lemma_replace_untouched(
        out,
        p3,
        "super::"@ + f + mod_suffix() + internal_suffix() + "::"@ + pascal_case_of(f),
    );
}

proof fn lemma_underscore_skips_dash(b: Seq<char>, f: Seq<char>)
    ensures
        replace_all("handle-http"@ + b, "handle_http"@, f) == "handle-http"@ + replace_all(
            b,
            "handle_http"@,
            f,
        ),
{
    reveal_strlit("handle_http");
    reveal_strlit("handle-http");
    let p1 = "handle_http"@;
    let d = "handle-http"@;
    let t = d + b;
    let x = seq!['a', 'n', 'd', 'l', 'e', '-'];
    let y = seq!['t', 't', 'p'];
    assert(t.take(11)[6] == '-');
    assert(t.skip(1) =~= x + (seq!['h'] + (y + b)));
    lemma_replace_after_untouched(x, seq!['h'] + (y + b), p1, f);
    let z = seq!['h'] + (y + b);
    if z.len() >= 11 {
        assert(z.take(11)[1] == 't');
    }
    assert(z.skip(1) =~= y + b);
    lemma_replace_after_untouched(y, b, p1, f);
    if z.len() < 11 {
        assert(b.len() < 11);
    }
    assert(seq!['h'] + (x + (seq!['h'] + (y + replace_all(b, p1, f)))) =~= d + replace_all(b, p1, f));
}

proof fn lemma_underscore_skips_dashed_text(pieces: Seq<Seq<char>>, f: Seq<char>)
    requires
        forall|k: int| 0 <= k < pieces.len() ==> lacks(#[trigger] pieces[k], 'h'),
    ensures
        replace_all(interleave(pieces, "handle-http"@), "handle_http"@, f) == interleave(
            pieces,
            "handle-http"@,
        ),
    decreases pieces.len(),
{
    reveal_strlit("handle_http");
    let p1 = "handle_http"@;
    assert(p1[0] == 'h');
    if pieces.len() == 1 {
        assert(lacks(pieces[0], 'h'));
        lemma_replace_untouched(pieces[0], p1, f);
    } else if pieces.len() > 1 {
        let rest = pieces.drop_first();
        assert forall|k: int| 0 <= k < rest.len() implies lacks(#[trigger] rest[k], 'h') by {
            assert(rest[k] == pieces[k + 1]);
        }
        lemma_underscore_skips_dashed_text(rest, f);
        assert(lacks(pieces[0], 'h'));
        let d = "handle-http"@;
        let tail = interleave(rest, d);
        lemma_replace_after_untouched(pieces[0], d + tail, p1, f);
        lemma_underscore_skips_dash(tail, f);
        assert(pieces[0] + d + tail =~= pieces[0] + (d + tail));
    }
}

/// Every `handle-http` of the bindings text is renamed to the export name
/// of the handler function, its name with `-` for `_`, wherever it stands,
/// and the text around the occurrences is kept: for pieces of text without
/// `h` or `s` joined by `handle-http`, and a function name without `s`,
/// the rewritten text is the same pieces joined by the export name.
pub proof fn lemma_rewrite_renames_every_handle_dash_http(pieces: Seq<Seq<char>>, f: Seq<char>)
    requires
        forall|k: int| 0 <= k < pieces.len() ==> lacks(#[trigger] pieces[k], 'h') && lacks(pieces[k], 's'),
        lacks(f, 's'),
    ensures
        bindings_rewritten(interleave(pieces, "handle-http"@), f) == interleave(pieces, dashed(f)),
{
    reveal_strlit("handle-http");
    reveal_strlit("super::");
    let p2 = "handle-http"@;
    let p3 = "super::"@ + pascal_case_of(f + mod_suffix());
    assert(p2[0] == 'h' && p3[0] == 's');
    assert forall|k: int| 0 <= k < pieces.len() implies lacks(#[trigger] pieces[k], 'h') by {}
    lemma_underscore_skips_dashed_text(pieces, f);
    lemma_replace_interleave(pieces, p2, dashed(f));
    let out = interleave(pieces, dashed(f));
    assert forall|i: int| 0 <= i < dashed(f).len() implies dashed(f)[i] != 's' by {
        assert(dashed(f)[i] == (if f[i] == '_' { '-' } else { f[i] }));
    }
    assert forall|k: int| 0 <= k < pieces.len() implies lacks(#[trigger] pieces[k], 's') by {}
    lemma_interleave_lacks(pieces, dashed(f), 's');
    lemma_replace_untouched(
        out,
        p3,
        "super::"@ + f + mod_suffix() + internal_suffix() + "::"@ + pascal_case_of(f),
    );
}

/// Every path of the bindings' trait, `super::` and the trait name, is
/// replaced by the path of the handler's struct in its implementing module,
/// wherever it stands, and the text around it is kept: for pieces of text
/// without `h` or `s` joined by the trait's path, where the trait name has
/// no `h`, the rewritten text is the same pieces joined by the struct's
/// path.
pub proof fn lemma_rewrite_replaces_every_trait_path(pieces: Seq<Seq<char>>, f: Seq<char>)
    requires
        forall|k: int| 0 <= k < pieces.len() ==> lacks(#[trigger] pieces[k], 'h') && lacks(pieces[k], 's'),
        lacks(pascal_case_of(f + mod_suffix()), 'h'),
    ensures
        bindings_rewritten(interleave(pieces, "super::"@ + pascal_case_of(f + mod_suffix())), f)
            == interleave(
            pieces,
            "super::"@ + f + mod_suffix() + internal_suffix() + "::"@ + pascal_case_of(f),
        ),
{
    reveal_strlit("handle_http");
    reveal_strlit("handle-http");
    reveal_strlit("super::");
    let p1 = "handle_http"@;
    let p2 = "handle-http"@;
    let t = pascal_case_of(f + mod_suffix());
    let p3 = "super::"@ + t;
    let r3 = "super::"@ + f + mod_suffix() + internal_suffix() + "::"@ + pascal_case_of(f);
    assert(p1[0] == 'h' && p2[0] == 'h' && p3[0] == 's');
    assert forall|i: int| 0 <= i < p3.len() implies p3[i] != 'h' by {
        if i >= 7 {
            assert(p3[i] == t[i - 7]);
        }
    }
    assert forall|k: int| 0 <= k < pieces.len() implies lacks(#[trigger] pieces[k], 'h') by {}
    lemma_interleave_lacks(pieces, p3, 'h');
    let text = interleave(pieces, p3);
    lemma_replace_untouched(text, p1, f);
    lemma_replace_untouched(text, p2, dashed(f));
    assert forall|k: int| 0 <= k < pieces.len() implies lacks(#[trigger] pieces[k], p3[0]) by {}
    lemma_replace_interleave(pieces, p3, r3);
}

} // verus!
