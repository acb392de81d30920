//! Grammar-wide laws, proved once and for all inputs: acceptance depends
//! only on the text, comments and blank lines change nothing, `search`
//! replaces wholesale, `lookup` never fails and `family` fails exactly on an
//! unrecognized token.
use vstd::prelude::*;

use crate::config::{default_config, ConfigV, Family};
use crate::grammar::{
    apply_options, family_items, is_comment_line, lookup_items, opt_apply, spec_dispatch,
    spec_line, spec_parse, spec_parse_lines, ParseError,
};
use crate::scan::{cut_at, split_on, toks_from, tokens_of, utf8_from, ws_width};
use crate::words::{
    kw_domain, kw_family, kw_inet4, kw_inet6, kw_lookup, kw_nameserver, kw_options, kw_search,
    kw_sortlist,
};

verus! {

proof fn lemma_ascii_is_utf8(s: Seq<u8>, i: int)
    requires
        forall|k: int| i <= k < s.len() ==> #[trigger] s[k] < 0x80,
    ensures
        utf8_from(s, i),
    decreases s.len() - i,
{
    if 0 <= i < s.len() {
        lemma_ascii_is_utf8(s, i + 1);
    }
}

proof fn lemma_no_cut(s: Seq<u8>, i: int)
    requires
        forall|k: int| i <= k < s.len() ==> #[trigger] s[k] != 59 && s[k] != 35,
    ensures
        cut_at(s, i) == s.len(),
    decreases s.len() - i,
{
    if 0 <= i < s.len() {
        lemma_no_cut(s, i + 1);
    }
}

proof fn lemma_ws_only_no_tokens(s: Seq<u8>, i: int, acc: Seq<Seq<u8>>)
    requires
        forall|k: int| i <= k < s.len() ==> #[trigger] ws_width(s, k) > 0,
    ensures
        toks_from(s, i, Seq::empty(), acc) == acc,
    decreases s.len() - i,
{
    if 0 <= i < s.len() {
        lemma_ws_only_no_tokens(s, i + ws_width(s, i), acc);
    }
}

/// Comment-only and blank lines never alter the configuration.
pub proof fn comment_and_blank_lines_are_inert(c: ConfigV, n: int, l: Seq<u8>)
    requires
        is_comment_line(l) || (forall|k: int| 0 <= k < l.len() ==> #[trigger] l[k] == 32 || l[k]
            == 9),
    ensures
        spec_line(c, n, l) == Ok::<ConfigV, ParseError>(c),
{
    if !is_comment_line(l) {
        lemma_ascii_is_utf8(l, 0);
        lemma_no_cut(l, 0);
        assert(l.take(cut_at(l, 0)) =~= l);
        assert(forall|k: int| 0 <= k < l.len() ==> #[trigger] ws_width(l, k) > 0);
        lemma_ws_only_no_tokens(l, 0, Seq::empty());
        assert(tokens_of(l).len() == 0);
    }
}

proof fn lemma_options_ok_independent(c1: ConfigV, c2: ConfigV, n1: int, n2: int, toks: Seq<Seq<u8>>, i: int)
    ensures
        apply_options(c1, n1, toks, i) is Ok <==> apply_options(c2, n2, toks, i) is Ok,
    decreases toks.len() - i,
{
    if 0 <= i < toks.len() {
        match (opt_apply(c1, n1, toks[i]), opt_apply(c2, n2, toks[i])) {
            (Ok(a), Ok(b)) => {
                lemma_options_ok_independent(a, b, n1, n2, toks, i + 1);
            },
            (Err(_), Err(_)) => {},
            _ => {
                assert(false);
            },
        }
    }
}

/// Whether a line is accepted depends on the line alone, never on the
/// configuration built so far or on the line number.
pub proof fn lemma_line_ok_independent(c1: ConfigV, c2: ConfigV, n1: int, n2: int, l: Seq<u8>)
    ensures
        spec_line(c1, n1, l) is Ok <==> spec_line(c2, n2, l) is Ok,
{
    let toks = tokens_of(l.take(cut_at(l, 0)));
    if !is_comment_line(l) && utf8_from(l, 0) && toks.len() > 0 {
        if toks[0] == kw_options() {
            lemma_options_ok_independent(c1, c2, n1, n2, toks, 1);
        }
    }
}

/// A line that parses without error against the empty default configuration;
/// by `lemma_line_ok_independent` this is acceptance against any state.
pub open spec fn line_accepted(l: Seq<u8>) -> bool {
    spec_line(default_config(), 0, l) is Ok
}

proof fn lemma_parse_lines_ok_iff(c: ConfigV, n: int, lines: Seq<Seq<u8>>)
    ensures
        spec_parse_lines(c, n, lines) is Ok <==> (forall|k: int|
            0 <= k < lines.len() ==> line_accepted(#[trigger] lines[k])),
    decreases lines.len(),
{
    if lines.len() > 0 {
        lemma_line_ok_independent(c, default_config(), n, 0, lines[0]);
        match spec_line(c, n, lines[0]) {
            Ok(c2) => {
                lemma_parse_lines_ok_iff(c2, n + 1, lines.skip(1));
                assert(forall|k: int|
                    0 <= k < lines.skip(1).len() ==> lines.skip(1)[k] == lines[k + 1]);
                if spec_parse_lines(c, n, lines) is Ok {
                    assert forall|k: int| 0 <= k < lines.len() implies line_accepted(
                        #[trigger] lines[k],
                    ) by {
                        if k > 0 {
                            assert(lines[k] == lines.skip(1)[k - 1]);
                        }
                    }
                } else {
                    assert(!(spec_parse_lines(c2, n + 1, lines.skip(1)) is Ok));
                    let bad = choose|k: int|
                        0 <= k < lines.skip(1).len() && !line_accepted(#[trigger] lines.skip(1)[k]);
                    assert(lines.skip(1)[bad] == lines[bad + 1]);
                    assert(!line_accepted(lines[bad + 1]));
                }
            },
            Err(_) => {
                assert(!line_accepted(lines[0]));
            },
        }
    }
}

/// A buffer parses successfully exactly when every one of its lines is, by
/// itself, an accepted line: a comment, a blank line, or a well-formed
/// directive. What the successful parse returns is `spec_parse` itself: each
/// directive's effect applied in source order.
pub proof fn parse_ok_iff_all_lines_ok(s: Seq<u8>)
    ensures
        spec_parse(s) is Ok <==> (forall|k: int|
            0 <= k < split_on(s, 10).len() ==> line_accepted(#[trigger] split_on(s, 10)[k])),
{
    lemma_parse_lines_ok_iff(default_config(), 0, split_on(s, 10));
}

/// A `search` directive replaces the whole search list with this line's
/// remaining tokens — even with none — and leaves every other field alone.
pub proof fn search_directive_replaces_wholesale(c: ConfigV, n: int, toks: Seq<Seq<u8>>)
    requires
        toks.len() > 0,
        toks[0] == kw_search(),
    ensures
        spec_dispatch(c, n, toks) == Ok::<ConfigV, ParseError>(
            ConfigV { search: toks.skip(1), ..c },
        ),
{
    reveal(kw_nameserver);
    reveal(kw_domain);
    reveal(kw_search);
    assert(kw_search() != kw_nameserver());
    assert(kw_search()[0] == 115 && kw_domain()[0] == 100);
    assert(kw_search() != kw_domain());
}

/// A `lookup` directive always succeeds: `file` and `bind` are recognized
/// and any other token is kept verbatim, appended after the entries already
/// present.
pub proof fn lookup_directive_always_accepts(c: ConfigV, n: int, toks: Seq<Seq<u8>>)
    requires
        toks.len() > 0,
        toks[0] == kw_lookup(),
    ensures
        spec_dispatch(c, n, toks) == Ok::<ConfigV, ParseError>(
            ConfigV { lookup: c.lookup + lookup_items(toks, 1), ..c },
        ),
{
    reveal(kw_nameserver);
    reveal(kw_domain);
    reveal(kw_search);
    reveal(kw_sortlist);
    reveal(kw_options);
    reveal(kw_lookup);
    assert(kw_lookup()[0] == 108 && kw_domain()[0] == 100 && kw_search()[0] == 115);
    assert(kw_lookup() != kw_nameserver());
    assert(kw_lookup() != kw_domain());
    assert(kw_lookup() != kw_search());
    assert(kw_lookup() != kw_sortlist());
    assert(kw_lookup() != kw_options());
}

proof fn lemma_family_items_iff(toks: Seq<Seq<u8>>, i: int)
    requires
        0 <= i,
    ensures
        family_items(toks, i) is Some <==> (forall|k: int|
            #![trigger toks[k]]
            i <= k < toks.len() ==> (toks[k] == kw_inet4() || toks[k] == kw_inet6())),
    decreases toks.len() - i,
{
    if 0 <= i < toks.len() {
        lemma_family_items_iff(toks, i + 1);
        if toks[i] == kw_inet4() || toks[i] == kw_inet6() {
            if family_items(toks, i + 1) is Some {
                assert(family_items(toks, i) is Some);
                assert forall|k: int|
                    i <= k < toks.len() implies (#[trigger] toks[k] == kw_inet4() || toks[k]
                    == kw_inet6()) by {
                    if k > i {
                        assert(toks[k] == kw_inet4() || toks[k] == kw_inet6());
                    }
                }
            } else {
                assert(family_items(toks, i) is None);
                let bad = choose|k: int|
                    i + 1 <= k < toks.len() && !(#[trigger] toks[k] == kw_inet4() || toks[k]
                        == kw_inet6());
                assert(i <= bad < toks.len() && !(toks[bad] == kw_inet4() || toks[bad]
                    == kw_inet6()));
            }
        } else {
            assert(family_items(toks, i) is None);
            assert(i <= i < toks.len() && !(toks[i] == kw_inet4() || toks[i] == kw_inet6()));
        }
    }
}

/// A `family` directive, in contrast with `lookup`, succeeds exactly when
/// every token is `inet4` or `inet6`; the recognized entries are appended,
/// and one unrecognized token rejects the line with `InvalidValue`.
pub proof fn family_directive_is_strict(c: ConfigV, n: int, toks: Seq<Seq<u8>>)
    requires
        toks.len() > 0,
        toks[0] == kw_family(),
    ensures
        spec_dispatch(c, n, toks) is Ok <==> (forall|k: int|
            #![trigger toks[k]]
            1 <= k < toks.len() ==> (toks[k] == kw_inet4() || toks[k] == kw_inet6())),
        spec_dispatch(c, n, toks) is Ok ==> spec_dispatch(c, n, toks) == Ok::<
            ConfigV,
            ParseError,
        >(ConfigV { family: c.family + family_items(toks, 1).unwrap(), ..c }),
        !(spec_dispatch(c, n, toks) is Ok) ==> spec_dispatch(c, n, toks) == Err::<
            ConfigV,
            ParseError,
        >(ParseError::InvalidValue { line: n as usize }),
{
    reveal(kw_nameserver);
    reveal(kw_domain);
    reveal(kw_search);
    reveal(kw_sortlist);
    reveal(kw_options);
    reveal(kw_lookup);
    reveal(kw_family);
    assert(kw_family()[0] == 102 && kw_domain()[0] == 100 && kw_search()[0] == 115 && kw_lookup()[0]
        == 108);
    assert(kw_family() != kw_nameserver());
    assert(kw_family() != kw_domain());
    assert(kw_family() != kw_search());
    assert(kw_family() != kw_sortlist());
    assert(kw_family() != kw_options());
    assert(kw_family() != kw_lookup());
    lemma_family_items_iff(toks, 1);
}

} // verus!
