//! The code generator: renders the merged fact table into the text of the
//! generated source artifact — a banner header, one documented constant per
//! entry in key order, and the derived `version()` summary function.

use vstd::prelude::*;
use vstd::string::StrSliceExecFns;
use vstd::string::StringExecFns;
use crate::err::SdResult;
use crate::err::ShadowError;
use crate::strings::close_delim;
use crate::strings::contains_at;
use crate::strings::contains_sub;
use crate::strings::has_close_delim;
use crate::strings::lemma_lex_lt_irrefl;
use crate::strings::lex_lt;
use crate::table::ConstTable;
use crate::table::ConstType;
use crate::table::EntrySpec;
use crate::table::lemma_lookup_some_index;
use crate::table::lookup_seq;
use crate::table::rendered_value;
use crate::table::sorted_by_key;

verus! {

/// The banner the artifact opens with, around the generation timestamp.
pub open spec fn header_spec(ts: Seq<char>) -> Seq<char> {
    "/// Code generated by shadow-rs generator. DO NOT EDIT.\n/// Create time by:"@ + ts
        + "\n\n\n"@
}

/// The constant declaration of one entry: its upper-case key and its
/// rendered value, verbatim between the raw-string delimiters.
pub open spec fn const_decl(e: EntrySpec) -> Seq<char> {
    "pub const "@ + e.key + " :&str = r#\""@ + rendered_value(e) + "\"#;"@
}

/// The full block of one entry: description comment, attribute, declaration.
pub open spec fn render_entry(e: EntrySpec) -> Seq<char> {
    "/// "@ + e.desc + "\n#[allow(dead_code)]\n"@ + const_decl(e) + "\n\n"@
}

/// The constant block: every entry's block, in the table's key order.
pub open spec fn render_consts(s: Seq<EntrySpec>) -> Seq<char>
    decreases s.len(),
{
    if s.len() == 0 {
        Seq::<char>::empty()
    } else {
        render_entry(s[0]) + render_consts(s.drop_first())
    }
}

/// Whether the table carries a `TAG` entry whose rendered value is
/// non-empty; this selects the summary function's flavor.
pub open spec fn has_nonempty_tag(s: Seq<EntrySpec>) -> bool {
    match lookup_seq(s, "TAG"@) {
        Some(e) => rendered_value(e).len() > 0,
        None => false,
    }
}

/// The emitted `version()` function: the tag flavor labels the ref `tag:`
/// and reads the `TAG` constant, the branch flavor labels it `branch:` and
/// reads the `BRANCH` constant.
pub open spec fn version_fn_spec(tagged: bool) -> Seq<char> {
    if tagged {
        "#[allow(dead_code)]\npub fn version() -> String {\n    format!(r#\"\npkg_version:{}\n"@
            + "tag:"@ + "{}\ncommit_hash:{}\nbuild_time:{}\nbuild_env:{},{}\"#,PKG_VERSION, "@
            + "TAG"@ + ", SHORT_COMMIT, BUILD_TIME, RUST_VERSION, RUST_CHANNEL\n    )\n}"@
    } else {
        "#[allow(dead_code)]\npub fn version() -> String {\n    format!(r#\"\npkg_version:{}\n"@
            + "branch:"@ + "{}\ncommit_hash:{}\nbuild_time:{}\nbuild_env:{},{}\"#,PKG_VERSION, "@
            + "BRANCH"@ + ", SHORT_COMMIT, BUILD_TIME, RUST_VERSION, RUST_CHANNEL\n    )\n}"@
    }
}

/// The whole artifact: header, constant block, summary function.
pub open spec fn render_spec(s: Seq<EntrySpec>, ts: Seq<char>) -> Seq<char> {
    header_spec(ts) + render_consts(s)
        + "/// The common version method. It's so easy to use this method\n"@
        + version_fn_spec(has_nonempty_tag(s)) + "\n\n"@
}

/// Whether some entry's rendered value contains the closing delimiter and
/// would corrupt the artifact.
pub open spec fn has_collision(s: Seq<EntrySpec>) -> bool {
    exists|i: int| 0 <= i < s.len() && contains_sub(rendered_value(s[i]), close_delim())
}

/// Appending one entry extends the constant block by that entry's text.
proof fn lemma_render_consts_snoc(s: Seq<EntrySpec>, e: EntrySpec)
    ensures
        render_consts(s.push(e)) == render_consts(s) + render_entry(e),
    decreases s.len(),
{
    if s.len() == 0 {
        assert(s.push(e)[0] == e);
        assert(s.push(e).drop_first() =~= Seq::<EntrySpec>::empty());
        assert(render_consts(Seq::<EntrySpec>::empty()) == Seq::<char>::empty());
        assert(render_consts(s.push(e)) == render_entry(e) + Seq::<char>::empty());
        assert(render_consts(s.push(e)) =~= render_consts(s) + render_entry(e));
    } else {
        assert(s.push(e)[0] == s[0]);
        assert(s.push(e).drop_first() =~= s.drop_first().push(e));
        lemma_render_consts_snoc(s.drop_first(), e);
        assert(render_consts(s.push(e)) =~= render_consts(s) + render_entry(e));
    }
}

/// Renders the table into the artifact's text.
///
/// Succeeds with the exact rendering unless some entry's rendered value
/// contains the raw-string closing delimiter, in which case the run fails
/// fast with a delimiter-collision error rather than emit a corrupt
/// artifact.
pub fn generate(table: &ConstTable, ts: &str) -> (r: SdResult<String>)
    requires
        table.wf(),
    ensures
        match r {
            Ok(out) => out@ == render_spec(table@, ts@) && !has_collision(table@),
            Err(e) => e == ShadowError::ValueDelimiterCollision && has_collision(table@),
        },
{
    let mut out = String::new();
    out.append("/// Code generated by shadow-rs generator. DO NOT EDIT.\n/// Create time by:");
    out.append(ts);
    out.append("\n\n\n");
    proof {
        assert(table@.subrange(0, 0) =~= Seq::<EntrySpec>::empty());
        assert(out@ =~= header_spec(ts@) + render_consts(table@.subrange(0, 0)));
    }
    let n = table.len();
    let empty_val = String::new();
    let mut i: usize = 0;
    while i < n
        invariant
            n == table@.len(),
            table.wf(),
            0 <= i <= n,
            empty_val@.len() == 0,
            out@ == header_spec(ts@) + render_consts(table@.subrange(0, i as int)),
            forall|j: int|
                0 <= j < i ==> !contains_sub(rendered_value(table@[j]), close_delim()),
        decreases n - i,
    {
        let e = table.entry_at(i);
        let val: &String = match e.t {
            ConstType::Str => &e.v,
            ConstType::OptStr => &empty_val,
        };
        proof {
            assert(empty_val@ =~= Seq::<char>::empty());
            assert(val@ == rendered_value(table@[i as int]));
        }
        if has_close_delim(val.as_str()) {
            return Err(ShadowError::ValueDelimiterCollision);
        }
        out.append("/// ");
        out.append(e.desc.as_str());
        out.append("\n#[allow(dead_code)]\n");
        out.append("pub const ");
        out.append(e.key.as_str());
        out.append(" :&str = r#\"");
        out.append(val.as_str());
        out.append("\"#;");
        out.append("\n\n");
        proof {
            assert(table@.subrange(0, i + 1) =~= table@.subrange(0, i as int).push(
                table@[i as int],
            ));
            lemma_render_consts_snoc(table@.subrange(0, i as int), table@[i as int]);
            assert(out@ =~= header_spec(ts@) + render_consts(table@.subrange(0, i + 1)));
        }
        i = i + 1;
    }
    proof {
        assert(table@.subrange(0, n as int) =~= table@);
    }
    out.append("/// The common version method. It's so easy to use this method\n");
    let tagged = match table.get("TAG") {
        Some(e) => match e.t {
            ConstType::Str => !e.v.as_str().is_empty(),
            ConstType::OptStr => false,
        },
        None => false,
    };
    proof {
        assert(tagged == has_nonempty_tag(table@));
    }
    out.append("#[allow(dead_code)]\npub fn version() -> String {\n    format!(r#\"\npkg_version:{}\n");
    if tagged {
        out.append("tag:");
        out.append("{}\ncommit_hash:{}\nbuild_time:{}\nbuild_env:{},{}\"#,PKG_VERSION, ");
        out.append("TAG");
    } else {
        out.append("branch:");
        out.append("{}\ncommit_hash:{}\nbuild_time:{}\nbuild_env:{},{}\"#,PKG_VERSION, ");
        out.append("BRANCH");
    }
    out.append(", SHORT_COMMIT, BUILD_TIME, RUST_VERSION, RUST_CHANNEL\n    )\n}");
    out.append("\n\n");
    proof {
        assert(out@ =~= render_spec(table@, ts@));
    }
    Ok(out)
}

/// Relies on chrono's Local::now and DateTime::format, with a fixed valid
/// strftime format string: the current local time, rendered as text.
#[verifier::external_body]
fn now_timestamp() -> String {
    chrono::Local::now().format("%Y-%m-%d %H:%M:%S").to_string()
}

/// Renders the table with the generation timestamp captured at render time —
/// the one intentionally non-reproducible input of the whole artifact.
pub fn generate_now(table: &ConstTable) -> (r: SdResult<String>)
    requires
        table.wf(),
    ensures
        match r {
            Ok(out) => (exists|ts: Seq<char>| out@ == render_spec(table@, ts))
                && !has_collision(table@),
            Err(e) => e == ShadowError::ValueDelimiterCollision && has_collision(table@),
        },
{
    let ts = now_timestamp();
    let r = generate(table, ts.as_str());
    proof {
        if r is Ok {
            assert(r->Ok_0@ == render_spec(table@, ts@));
        }
    }
    r
}

/// Rendering is deterministic: the artifact's text is a function of the
/// table's contents and the generation timestamp alone, so identical inputs
/// (timestamp included) yield byte-identical output.
pub proof fn lemma_generate_deterministic(
    s1: Seq<EntrySpec>,
    ts1: Seq<char>,
    s2: Seq<EntrySpec>,
    ts2: Seq<char>,
)
    requires
        s1 == s2,
        ts1 == ts2,
    ensures
        render_spec(s1, ts1) == render_spec(s2, ts2),
{
}

/// A sequence flanked by any two others occurs in their concatenation.
proof fn lemma_contains_mid(pre: Seq<char>, sub: Seq<char>, post: Seq<char>)
    ensures
        contains_sub(pre + sub + post, sub),
{
    let w = pre + sub + post;
    assert(w.subrange(pre.len() as int, pre.len() as int + sub.len() as int) =~= sub);
    assert(contains_at(w, sub, pre.len() as int));
}

/// The summary flavor selection: a table with a non-empty `TAG` entry
/// renders an artifact containing the `tag:` label, and any other table one
/// containing the `branch:` label.
pub proof fn lemma_version_label(s: Seq<EntrySpec>, ts: Seq<char>)
    ensures
        has_nonempty_tag(s) ==> contains_sub(render_spec(s, ts), "tag:"@),
        !has_nonempty_tag(s) ==> contains_sub(render_spec(s, ts), "branch:"@),
{
    let pre = header_spec(ts) + render_consts(s)
        + "/// The common version method. It's so easy to use this method\n"@
        + "#[allow(dead_code)]\npub fn version() -> String {\n    format!(r#\"\npkg_version:{}\n"@;
    if has_nonempty_tag(s) {
        let post = "{}\ncommit_hash:{}\nbuild_time:{}\nbuild_env:{},{}\"#,PKG_VERSION, "@
            + "TAG"@ + ", SHORT_COMMIT, BUILD_TIME, RUST_VERSION, RUST_CHANNEL\n    )\n}"@
            + "\n\n"@;
        assert(render_spec(s, ts) =~= pre + "tag:"@ + post);
        lemma_contains_mid(pre, "tag:"@, post);
    } else {
        let post = "{}\ncommit_hash:{}\nbuild_time:{}\nbuild_env:{},{}\"#,PKG_VERSION, "@
            + "BRANCH"@ + ", SHORT_COMMIT, BUILD_TIME, RUST_VERSION, RUST_CHANNEL\n    )\n}"@
            + "\n\n"@;
        assert(render_spec(s, ts) =~= pre + "branch:"@ + post);
        lemma_contains_mid(pre, "branch:"@, post);
    }
}

/// The constant block lists the entries in the table's own order.
proof fn lemma_render_consts_split(s: Seq<EntrySpec>, i: int)
    requires
        0 <= i < s.len(),
    ensures
        render_consts(s) == render_consts(s.subrange(0, i)) + render_entry(s[i]) + render_consts(
            s.subrange(i + 1, s.len() as int),
        ),
    decreases i,
{
    if i == 0 {
        assert(s.subrange(0, 0) =~= Seq::<EntrySpec>::empty());
        assert(s.subrange(1, s.len() as int) =~= s.drop_first());
        assert(render_consts(s) =~= render_consts(s.subrange(0, 0)) + render_entry(s[0])
            + render_consts(s.subrange(1, s.len() as int)));
    } else {
        let t = s.drop_first();
        lemma_render_consts_split(t, i - 1);
        assert(t.subrange(0, i - 1) =~= s.subrange(1, i));
        assert(t[i - 1] == s[i]);
        assert(t.subrange(i, t.len() as int) =~= s.subrange(i + 1, s.len() as int));
        assert(render_consts(s.subrange(0, i)) == render_entry(s[0]) + render_consts(
            s.subrange(1, i),
        )) by {
            assert(s.subrange(0, i)[0] == s[0]);
            assert(s.subrange(0, i).drop_first() =~= s.subrange(1, i));
        }
        assert(render_consts(s) =~= render_consts(s.subrange(0, i)) + render_entry(s[i])
            + render_consts(s.subrange(i + 1, s.len() as int)));
    }
}

/// Round trip: every key the table binds appears at exactly one position of
/// the (key-sorted) constant block, and that position's declaration carries
/// the key and its exact rendered value verbatim between the raw-string
/// delimiters.
pub proof fn lemma_constant_block_round_trip(s: Seq<EntrySpec>, k: Seq<char>)
    requires
        sorted_by_key(s),
        lookup_seq(s, k) is Some,
    ensures
        exists|i: int|
            {
                &&& 0 <= i < s.len()
                &&& s[i].key == k
                &&& lookup_seq(s, k) == Some(s[i])
                &&& (forall|j: int| 0 <= j < s.len() && s[j].key == k ==> j == i)
                &&& contains_sub(render_consts(s), const_decl(s[i]))
            },
{
    lemma_lookup_some_index(s, k);
    let i = choose|i: int|
        0 <= i < s.len() && s[i].key == k && lookup_seq(s, k) == Some(s[i]);
    assert forall|j: int| 0 <= j < s.len() && s[j].key == k implies j == i by {
        if j < i {
            assert(lex_lt(s[j].key, s[i].key));
            lemma_lex_lt_irrefl(k);
        } else if j > i {
            assert(lex_lt(s[i].key, s[j].key));
            lemma_lex_lt_irrefl(k);
        }
    }
    lemma_render_consts_split(s, i);
    let pre = render_consts(s.subrange(0, i)) + "/// "@ + s[i].desc
        + "\n#[allow(dead_code)]\n"@;
    let post = "\n\n"@ + render_consts(s.subrange(i + 1, s.len() as int));
    assert(render_consts(s) =~= pre + const_decl(s[i]) + post);
    lemma_contains_mid(pre, const_decl(s[i]), post);
    assert(0 <= i < s.len() && s[i].key == k && lookup_seq(s, k) == Some(s[i]) && (forall|
        j: int,
    | 0 <= j < s.len() && s[j].key == k ==> j == i) && contains_sub(
        render_consts(s),
        const_decl(s[i]),
    ));
}

} // verus!
