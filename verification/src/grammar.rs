//! The grammar engine: line and comment handling, directive dispatch, the
//! `options` sub-grammar, and the top-level `parse` entry point, all stated
//! against a specification-level reading of the same grammar.
use vstd::prelude::*;
use vstd::slice::slice_subrange;

use crate::config::{default_config, Config, ConfigV, Family, Lookup, LookupV};
use crate::ip::{ip_v4_netw, ip_v6_netw, parse_ip, spec_ip, spec_netw, AddrParseError, Network};
use crate::scan::{
    byte_seqs, copy_bytes, cut_at, find_byte, find_from, is_utf8, parse_u32_bytes, skip_tabsp,
    spec_parse_u32, split_bytes, split_on, tokenize, tokens_of, utf8_from,
};
use crate::words::{
    is_attempts, is_bind, is_debug, is_domain, is_edns0, is_family, is_file, is_inet4, is_inet6,
    is_ip6_bytestring, is_ip6_dotint, is_lookup, is_nameserver, is_ndots, is_no_check_names,
    is_no_ip6_dotint, is_no_reload, is_no_tld_query, is_options, is_rotate, is_search,
    is_single_request, is_single_request_reopen, is_sortlist, is_timeout, is_trust_ad, is_use_vc,
    kw_attempts, kw_bind, kw_debug, kw_domain, kw_edns0, kw_family, kw_file, kw_inet4, kw_inet6,
    kw_ip6_bytestring, kw_ip6_dotint, kw_lookup, kw_nameserver, kw_ndots, kw_no_check_names,
    kw_no_ip6_dotint, kw_no_reload, kw_no_tld_query, kw_options, kw_rotate, kw_search,
    kw_single_request, kw_single_request_reopen, kw_sortlist, kw_timeout, kw_trust_ad, kw_use_vc,
};

verus! {

/// Error while parsing a resolver configuration, carrying the 0-based
/// source line it was found on.
#[derive(Clone, Copy, Debug, PartialEq, Eq, Structural)]
pub enum ParseError {
    /// A non-comment line is not valid UTF-8 text.
    InvalidUtf8 { line: usize },
    /// A required directive value is missing or malformed.
    InvalidValue { line: usize },
    /// An `options` value is missing or malformed.
    InvalidOptionValue { line: usize },
    /// An `options` key is not recognized.
    InvalidOption { line: usize },
    /// A top-level keyword is not recognized.
    InvalidDirective { line: usize },
    /// An address or network literal fails to parse.
    InvalidIp { line: usize, err: AddrParseError },
    /// Tokens remain after a fixed-arity directive consumed its due.
    ExtraData { line: usize },
}

/// A full-comment line: its first byte other than tab or space is `;` or
/// `#`. Such lines are skipped without UTF-8 validation.
pub open spec fn is_comment_line(s: Seq<u8>) -> bool {
    let i = skip_tabsp(s, 0);
    i < s.len() && (s[i] == 59 || s[i] == 35)
}

fn comment_line(s: &[u8]) -> (r: bool)
    ensures
        r == is_comment_line(s@),
{
    let mut i: usize = 0;
    while i < s.len()
        invariant
            i <= s.len(),
            skip_tabsp(s@, 0) == skip_tabsp(s@, i as int),
        decreases s.len() - i,
    {
        let b = s[i];
        if b == 9 || b == 32 {
            i += 1;
        } else {
            return b == 59 || b == 35;
        }
    }
    false
}

fn cut_point(s: &[u8]) -> (j: usize)
    ensures
        j as int == cut_at(s@, 0),
        j <= s@.len(),
{
    let mut i: usize = 0;
    while i < s.len()
        invariant
            i <= s.len(),
            cut_at(s@, 0) == cut_at(s@, i as int),
        decreases s.len() - i,
    {
        if s[i] == 59 || s[i] == 35 {
            return i;
        }
        i += 1;
    }
    i
}

/// The effect of a `nameserver` line: exactly one address token appended.
pub open spec fn apply_nameserver(c: ConfigV, n: int, toks: Seq<Seq<u8>>) -> Result<
    ConfigV,
    ParseError,
> {
    if toks.len() < 2 {
        Err(ParseError::InvalidValue { line: n as usize })
    } else {
        match spec_ip(toks[1]) {
            None => Err(ParseError::InvalidIp { line: n as usize, err: AddrParseError }),
            Some(ip) => if toks.len() > 2 {
                Err(ParseError::ExtraData { line: n as usize })
            } else {
                Ok(ConfigV { nameservers: c.nameservers.push(ip), ..c })
            },
        }
    }
}

/// The effect of a `domain` line: exactly one token, overwriting the domain.
pub open spec fn apply_domain(c: ConfigV, n: int, toks: Seq<Seq<u8>>) -> Result<
    ConfigV,
    ParseError,
> {
    if toks.len() < 2 {
        Err(ParseError::InvalidValue { line: n as usize })
    } else if toks.len() > 2 {
        Err(ParseError::ExtraData { line: n as usize })
    } else {
        Ok(ConfigV { domain: Some(toks[1]), ..c })
    }
}

/// The effect of a `search` line: the whole list replaced by this line's
/// tokens, even when there are none.
pub open spec fn apply_search(c: ConfigV, toks: Seq<Seq<u8>>) -> Result<ConfigV, ParseError> {
    Ok(ConfigV { search: toks.skip(1), ..c })
}

/// The networks the sortlist tokens denote from position `i` on, or nothing
/// as soon as one token parses neither as an IPv4 nor as an IPv6 network.
pub open spec fn netw_list(toks: Seq<Seq<u8>>, i: int) -> Option<Seq<Network>>
    decreases toks.len() - i,
{
    if !(0 <= i < toks.len()) {
        Some(Seq::empty())
    } else {
        match spec_netw(toks[i]) {
            None => None,
            Some(nw) => match netw_list(toks, i + 1) {
                Some(t) => Some(seq![nw] + t),
                None => None,
            },
        }
    }
}

/// The effect of a `sortlist` line: the list cleared and rebuilt from this
/// line's tokens.
pub open spec fn apply_sortlist(c: ConfigV, n: int, toks: Seq<Seq<u8>>) -> Result<
    ConfigV,
    ParseError,
> {
    match netw_list(toks, 1) {
        Some(l) => Ok(ConfigV { sortlist: l, ..c }),
        None => Err(ParseError::InvalidIp { line: n as usize, err: AddrParseError }),
    }
}

/// The effect of one `options` token, already split into its key and its
/// optional value.
pub open spec fn opt_key_apply(c: ConfigV, n: int, key: Seq<u8>, val: Option<Seq<u8>>) -> Result<
    ConfigV,
    ParseError,
> {
    if key == kw_debug() {
        Ok(ConfigV { debug: true, ..c })
    } else if key == kw_ndots() {
        match val {
            Some(v) => match spec_parse_u32(v) {
                Some(x) => Ok(ConfigV { ndots: x, ..c }),
                None => Err(ParseError::InvalidOptionValue { line: n as usize }),
            },
            None => Err(ParseError::InvalidOptionValue { line: n as usize }),
        }
    } else if key == kw_timeout() {
        match val {
            Some(v) => match spec_parse_u32(v) {
                Some(x) => Ok(ConfigV { timeout: x, ..c }),
                None => Err(ParseError::InvalidOptionValue { line: n as usize }),
            },
            None => Err(ParseError::InvalidOptionValue { line: n as usize }),
        }
    } else if key == kw_attempts() {
        match val {
            Some(v) => match spec_parse_u32(v) {
                Some(x) => Ok(ConfigV { attempts: x, ..c }),
                None => Err(ParseError::InvalidOptionValue { line: n as usize }),
            },
            None => Err(ParseError::InvalidOptionValue { line: n as usize }),
        }
    } else if key == kw_rotate() {
        Ok(ConfigV { rotate: true, ..c })
    } else if key == kw_no_check_names() {
        Ok(ConfigV { no_check_names: true, ..c })
    } else if key == kw_inet6() {
        Ok(ConfigV { inet6: true, ..c })
    } else if key == kw_ip6_bytestring() {
        Ok(ConfigV { ip6_bytestring: true, ..c })
    } else if key == kw_ip6_dotint() {
        Ok(ConfigV { ip6_dotint: true, ..c })
    } else if key == kw_no_ip6_dotint() {
        Ok(ConfigV { ip6_dotint: false, ..c })
    } else if key == kw_edns0() {
        Ok(ConfigV { edns0: true, ..c })
    } else if key == kw_single_request() {
        Ok(ConfigV { single_request: true, ..c })
    } else if key == kw_single_request_reopen() {
        Ok(ConfigV { single_request_reopen: true, ..c })
    } else if key == kw_no_reload() {
        Ok(ConfigV { no_reload: true, ..c })
    } else if key == kw_trust_ad() {
        Ok(ConfigV { trust_ad: true, ..c })
    } else if key == kw_no_tld_query() {
        Ok(ConfigV { no_tld_query: true, ..c })
    } else if key == kw_use_vc() {
        Ok(ConfigV { use_vc: true, ..c })
    } else {
        Err(ParseError::InvalidOption { line: n as usize })
    }
}

/// The effect of one `options` token: split at its first `:`; a second `:`
/// is extra data.
pub open spec fn opt_apply(c: ConfigV, n: int, t: Seq<u8>) -> Result<ConfigV, ParseError> {
    match find_from(t, 58, 0) {
        None => opt_key_apply(c, n, t, None),
        Some(i) => {
            let key = t.take(i);
            let v = t.skip(i + 1);
            match find_from(v, 58, 0) {
                Some(_) => Err(ParseError::ExtraData { line: n as usize }),
                None => opt_key_apply(c, n, key, Some(v)),
            }
        },
    }
}

/// The effect of an `options` line: its tokens applied in order, stopping
/// at the first failing one.
pub open spec fn apply_options(c: ConfigV, n: int, toks: Seq<Seq<u8>>, i: int) -> Result<
    ConfigV,
    ParseError,
>
    decreases toks.len() - i,
{
    if !(0 <= i < toks.len()) {
        Ok(c)
    } else {
        match opt_apply(c, n, toks[i]) {
            Ok(c2) => apply_options(c2, n, toks, i + 1),
            Err(e) => Err(e),
        }
    }
}

/// The lookup entries the tokens denote from position `i` on: `file` and
/// `bind` are recognized, anything else is kept verbatim.
pub open spec fn lookup_items(toks: Seq<Seq<u8>>, i: int) -> Seq<LookupV>
    decreases toks.len() - i,
{
    if !(0 <= i < toks.len()) {
        Seq::empty()
    } else {
        let item = if toks[i] == kw_file() {
            LookupV::File
        } else if toks[i] == kw_bind() {
            LookupV::Bind
        } else {
            LookupV::Extra(toks[i])
        };
        seq![item] + lookup_items(toks, i + 1)
    }
}

/// The effect of a `lookup` line: every token appended, never an error.
pub open spec fn apply_lookup(c: ConfigV, toks: Seq<Seq<u8>>) -> Result<ConfigV, ParseError> {
    Ok(ConfigV { lookup: c.lookup + lookup_items(toks, 1), ..c })
}

/// The families the tokens denote from position `i` on, or nothing as soon
/// as one token is neither `inet4` nor `inet6`.
pub open spec fn family_items(toks: Seq<Seq<u8>>, i: int) -> Option<Seq<Family>>
    decreases toks.len() - i,
{
    if !(0 <= i < toks.len()) {
        Some(Seq::empty())
    } else {
        let f = if toks[i] == kw_inet4() {
            Some(Family::Inet4)
        } else if toks[i] == kw_inet6() {
            Some(Family::Inet6)
        } else {
            None
        };
        match f {
            None => None,
            Some(x) => match family_items(toks, i + 1) {
                Some(t) => Some(seq![x] + t),
                None => None,
            },
        }
    }
}

/// The effect of a `family` line: every recognized token appended; an
/// unrecognized one is rejected, in contrast with `lookup`.
pub open spec fn apply_family(c: ConfigV, n: int, toks: Seq<Seq<u8>>) -> Result<
    ConfigV,
    ParseError,
> {
    match family_items(toks, 1) {
        Some(l) => Ok(ConfigV { family: c.family + l, ..c }),
        None => Err(ParseError::InvalidValue { line: n as usize }),
    }
}

/// The effect of a tokenized directive line: the first token picks the
/// handler; an unknown keyword is rejected.
pub open spec fn spec_dispatch(c: ConfigV, n: int, toks: Seq<Seq<u8>>) -> Result<
    ConfigV,
    ParseError,
> {
    let kw = toks[0];
    if kw == kw_nameserver() {
        apply_nameserver(c, n, toks)
    } else if kw == kw_domain() {
        apply_domain(c, n, toks)
    } else if kw == kw_search() {
        apply_search(c, toks)
    } else if kw == kw_sortlist() {
        apply_sortlist(c, n, toks)
    } else if kw == kw_options() {
        apply_options(c, n, toks, 1)
    } else if kw == kw_lookup() {
        apply_lookup(c, toks)
    } else if kw == kw_family() {
        apply_family(c, n, toks)
    } else {
        Err(ParseError::InvalidDirective { line: n as usize })
    }
}

/// The effect of one source line on the configuration: full comments and
/// token-free lines change nothing; any other line must be UTF-8 text and is
/// truncated at its first `;` or `#`, tokenized and dispatched.
pub open spec fn spec_line(c: ConfigV, n: int, l: Seq<u8>) -> Result<ConfigV, ParseError> {
    if is_comment_line(l) {
        Ok(c)
    } else if !utf8_from(l, 0) {
        Err(ParseError::InvalidUtf8 { line: n as usize })
    } else {
        let toks = tokens_of(l.take(cut_at(l, 0)));
        if toks.len() == 0 {
            Ok(c)
        } else {
            spec_dispatch(c, n, toks)
        }
    }
}

/// The lines applied in order from line number `n`, stopping at the first
/// error.
pub open spec fn spec_parse_lines(c: ConfigV, n: int, lines: Seq<Seq<u8>>) -> Result<
    ConfigV,
    ParseError,
>
    decreases lines.len(),
{
    if lines.len() == 0 {
        Ok(c)
    } else {
        match spec_line(c, n, lines[0]) {
            Ok(c2) => spec_parse_lines(c2, n + 1, lines.skip(1)),
            Err(e) => Err(e),
        }
    }
}

/// What a whole buffer parses to: its newline-separated lines applied, in
/// order, to the default configuration.
pub open spec fn spec_parse(s: Seq<u8>) -> Result<ConfigV, ParseError> {
    spec_parse_lines(default_config(), 0, split_on(s, 10))
}

fn push_nameserver(cfg: Config, ip: crate::ip::Ip) -> (c2: Config)
    ensures
        c2@ == (ConfigV { nameservers: cfg@.nameservers.push(ip@), ..cfg@ }),
{
    let mut cfg = cfg;
    let ghost c0 = cfg@;
    cfg.nameservers.push(ip);
    proof {
        assert(cfg@.nameservers =~= c0.nameservers.push(ip@));
        assert(cfg@ =~= (ConfigV { nameservers: c0.nameservers.push(ip@), ..c0 }));
    }
    cfg
}

fn do_nameserver(cfg: Config, line: usize, toks: &Vec<Vec<u8>>) -> (r: Result<Config, ParseError>)
    ensures
        match r {
            Ok(c2) => apply_nameserver(cfg@, line as int, byte_seqs(toks@)) == Ok::<
                ConfigV,
                ParseError,
            >(c2@),
            Err(e) => apply_nameserver(cfg@, line as int, byte_seqs(toks@)) == Err::<
                ConfigV,
                ParseError,
            >(e),
        },
{
    let ghost tv = byte_seqs(toks@);
    if toks.len() < 2 {
        return Err(ParseError::InvalidValue { line });
    }
    assert(tv[1] == toks@[1]@);
    match parse_ip(toks[1].as_slice()) {
        None => Err(ParseError::InvalidIp { line, err: AddrParseError }),
        Some(ip) => {
            if toks.len() > 2 {
                Err(ParseError::ExtraData { line })
            } else {
                Ok(push_nameserver(cfg, ip))
            }
        },
    }
}

fn do_domain(cfg: Config, line: usize, toks: &Vec<Vec<u8>>) -> (r: Result<Config, ParseError>)
    ensures
        match r {
            Ok(c2) => apply_domain(cfg@, line as int, byte_seqs(toks@)) == Ok::<
                ConfigV,
                ParseError,
            >(c2@),
            Err(e) => apply_domain(cfg@, line as int, byte_seqs(toks@)) == Err::<
                ConfigV,
                ParseError,
            >(e),
        },
{
    let ghost tv = byte_seqs(toks@);
    if toks.len() < 2 {
        return Err(ParseError::InvalidValue { line });
    }
    if toks.len() > 2 {
        return Err(ParseError::ExtraData { line });
    }
    assert(tv[1] == toks@[1]@);
    let mut cfg = cfg;
    let ghost c0 = cfg@;
    cfg.domain = Some(copy_bytes(toks[1].as_slice()));
    proof {
        assert(cfg@ =~= (ConfigV { domain: Some(tv[1]), ..c0 }));
    }
    Ok(cfg)
}

fn do_search(cfg: Config, toks: &Vec<Vec<u8>>) -> (r: Result<Config, ParseError>)
    requires
        toks@.len() >= 1,
    ensures
        match r {
            Ok(c2) => apply_search(cfg@, byte_seqs(toks@)) == Ok::<ConfigV, ParseError>(c2@),
            Err(e) => apply_search(cfg@, byte_seqs(toks@)) == Err::<ConfigV, ParseError>(e),
        },
{
    let ghost tv = byte_seqs(toks@);
    let mut out: Vec<Vec<u8>> = Vec::new();
    let mut i: usize = 1;
    proof {
        assert(byte_seqs(out@) =~= tv.subrange(1, 1));
    }
    while i < toks.len()
        invariant
            1 <= i <= toks@.len(),
            tv == byte_seqs(toks@),
            byte_seqs(out@) =~= tv.subrange(1, i as int),
        decreases toks@.len() - i,
    {
        let ghost prev = out@;
        assert(tv[i as int] == toks@[i as int]@);
        out.push(copy_bytes(toks[i].as_slice()));
        proof {
            assert(byte_seqs(out@) =~= byte_seqs(prev).push(tv[i as int]));
            assert(byte_seqs(out@) =~= tv.subrange(1, i + 1));
        }
        i += 1;
    }
    proof {
        assert(tv.subrange(1, tv.len() as int) =~= tv.skip(1));
    }
    let mut cfg = cfg;
    let ghost c0 = cfg@;
    cfg.search = out;
    proof {
        assert(cfg@ =~= (ConfigV { search: tv.skip(1), ..c0 }));
    }
    Ok(cfg)
}

spec fn netw_prepend(pre: Seq<Network>, o: Option<Seq<Network>>) -> Option<Seq<Network>> {
    match o {
        Some(t) => Some(pre + t),
        None => None,
    }
}

proof fn netw_prepend_nil(o: Option<Seq<Network>>)
    ensures
        netw_prepend(Seq::empty(), o) == o,
{
    match o {
        Some(t) => {
            assert(Seq::<Network>::empty() + t =~= t);
        },
        None => {},
    }
}

fn do_sortlist(cfg: Config, line: usize, toks: &Vec<Vec<u8>>) -> (r: Result<Config, ParseError>)
    requires
        toks@.len() >= 1,
    ensures
        match r {
            Ok(c2) => apply_sortlist(cfg@, line as int, byte_seqs(toks@)) == Ok::<
                ConfigV,
                ParseError,
            >(c2@),
            Err(e) => apply_sortlist(cfg@, line as int, byte_seqs(toks@)) == Err::<
                ConfigV,
                ParseError,
            >(e),
        },
{
    let ghost tv = byte_seqs(toks@);
    let mut nets: Vec<Network> = Vec::new();
    let mut i: usize = 1;
    proof {
        netw_prepend_nil(netw_list(tv, 1));
    }
    while i < toks.len()
        invariant
            1 <= i <= toks@.len(),
            tv == byte_seqs(toks@),
            netw_list(tv, 1) == netw_prepend(nets@, netw_list(tv, i as int)),
        decreases toks@.len() - i,
    {
        assert(tv[i as int] == toks@[i as int]@);
        let nw = match ip_v4_netw(toks[i].as_slice()) {
            Ok(nw) => nw,
            Err(_) => match ip_v6_netw(toks[i].as_slice()) {
                Ok(nw) => nw,
                Err(_) => {
                    return Err(ParseError::InvalidIp { line, err: AddrParseError });
                },
            },
        };
        proof {
            let tail = netw_list(tv, i + 1);
            if tail is Some {
                assert(nets@ + (seq![nw] + tail.unwrap()) =~= nets@.push(nw) + tail.unwrap());
            }
        }
        nets.push(nw);
        i += 1;
    }
    proof {
        assert(netw_list(tv, i as int) == Some(Seq::<Network>::empty()));
        assert(nets@ + Seq::<Network>::empty() =~= nets@);
    }
    let mut cfg = cfg;
    let ghost c0 = cfg@;
    cfg.sortlist = nets;
    proof {
        assert(cfg@ =~= (ConfigV { sortlist: netw_list(tv, 1).unwrap(), ..c0 }));
    }
    Ok(cfg)
}

#[verifier::rlimit(100)]
fn do_option_key(cfg: Config, line: usize, key: &[u8], val: Option<&[u8]>) -> (r: Result<
    Config,
    ParseError,
>)
    ensures
        match r {
            Ok(c2) => opt_key_apply(
                cfg@,
                line as int,
                key@,
                match val {
                    Some(v) => Some(v@),
                    None => None::<Seq<u8>>,
                },
            ) == Ok::<ConfigV, ParseError>(c2@),
            Err(e) => opt_key_apply(
                cfg@,
                line as int,
                key@,
                match val {
                    Some(v) => Some(v@),
                    None => None::<Seq<u8>>,
                },
            ) == Err::<ConfigV, ParseError>(e),
        },
{
    let mut cfg = cfg;
    if is_debug(key) {
        cfg.debug = true;
    } else if is_ndots(key) {
        match val {
            Some(v) => match parse_u32_bytes(v) {
                Some(x) => {
                    cfg.ndots = x;
                },
                None => {
                    return Err(ParseError::InvalidOptionValue { line });
                },
            },
            None => {
                return Err(ParseError::InvalidOptionValue { line });
            },
        }
    } else if is_timeout(key) {
        match val {
            Some(v) => match parse_u32_bytes(v) {
                Some(x) => {
                    cfg.timeout = x;
                },
                None => {
                    return Err(ParseError::InvalidOptionValue { line });
                },
            },
            None => {
                return Err(ParseError::InvalidOptionValue { line });
            },
        }
    } else if is_attempts(key) {
        match val {
            Some(v) => match parse_u32_bytes(v) {
                Some(x) => {
                    cfg.attempts = x;
                },
                None => {
                    return Err(ParseError::InvalidOptionValue { line });
                },
            },
            None => {
                return Err(ParseError::InvalidOptionValue { line });
            },
        }
    } else if is_rotate(key) {
        cfg.rotate = true;
    } else if is_no_check_names(key) {
        cfg.no_check_names = true;
    } else if is_inet6(key) {
        cfg.inet6 = true;
    } else if is_ip6_bytestring(key) {
        cfg.ip6_bytestring = true;
    } else if is_ip6_dotint(key) {
        cfg.ip6_dotint = true;
    } else if is_no_ip6_dotint(key) {
        cfg.ip6_dotint = false;
    } else if is_edns0(key) {
        cfg.edns0 = true;
    } else if is_single_request(key) {
        cfg.single_request = true;
    } else if is_single_request_reopen(key) {
        cfg.single_request_reopen = true;
    } else if is_no_reload(key) {
        cfg.no_reload = true;
    } else if is_trust_ad(key) {
        cfg.trust_ad = true;
    } else if is_no_tld_query(key) {
        cfg.no_tld_query = true;
    } else if is_use_vc(key) {
        cfg.use_vc = true;
    } else {
        return Err(ParseError::InvalidOption { line });
    }
    Ok(cfg)
}

fn do_option_token(cfg: Config, line: usize, t: &[u8]) -> (r: Result<Config, ParseError>)
    ensures
        match r {
            Ok(c2) => opt_apply(cfg@, line as int, t@) == Ok::<ConfigV, ParseError>(c2@),
            Err(e) => opt_apply(cfg@, line as int, t@) == Err::<ConfigV, ParseError>(e),
        },
{
    let tlen = t.len();
    match find_byte(t, 58) {
        None => do_option_key(cfg, line, t, None),
        Some(j) => {
            let k = slice_subrange(t, 0, j);
            let v = slice_subrange(t, j + 1, tlen);
            proof {
                assert(k@ =~= t@.take(j as int));
                assert(v@ =~= t@.skip(j as int + 1));
            }
            match find_byte(v, 58) {
                Some(_) => Err(ParseError::ExtraData { line }),
                None => do_option_key(cfg, line, k, Some(v)),
            }
        },
    }
}

fn do_options(cfg: Config, line: usize, toks: &Vec<Vec<u8>>) -> (r: Result<Config, ParseError>)
    requires
        toks@.len() >= 1,
    ensures
        match r {
            Ok(c2) => apply_options(cfg@, line as int, byte_seqs(toks@), 1) == Ok::<
                ConfigV,
                ParseError,
            >(c2@),
            Err(e) => apply_options(cfg@, line as int, byte_seqs(toks@), 1) == Err::<
                ConfigV,
                ParseError,
            >(e),
        },
{
    let ghost tv = byte_seqs(toks@);
    let ghost cin = cfg@;
    let mut cfg = cfg;
    let mut i: usize = 1;
    while i < toks.len()
        invariant
            1 <= i <= toks@.len(),
            tv == byte_seqs(toks@),
            apply_options(cin, line as int, tv, 1) == apply_options(cfg@, line as int, tv, i as int),
        decreases toks@.len() - i,
    {
        assert(tv[i as int] == toks@[i as int]@);
        match do_option_token(cfg, line, toks[i].as_slice()) {
            Ok(c2) => {
                cfg = c2;
            },
            Err(e) => {
                return Err(e);
            },
        }
        i += 1;
    }
    Ok(cfg)
}

spec fn lookup_views(v: Seq<Lookup>) -> Seq<LookupV> {
    v.map_values(|x: Lookup| x@)
}

fn do_lookup(cfg: Config, toks: &Vec<Vec<u8>>) -> (r: Result<Config, ParseError>)
    requires
        toks@.len() >= 1,
    ensures
        match r {
            Ok(c2) => apply_lookup(cfg@, byte_seqs(toks@)) == Ok::<ConfigV, ParseError>(c2@),
            Err(e) => apply_lookup(cfg@, byte_seqs(toks@)) == Err::<ConfigV, ParseError>(e),
        },
{
    let ghost tv = byte_seqs(toks@);
    let mut items: Vec<Lookup> = Vec::new();
    let mut i: usize = 1;
    while i < toks.len()
        invariant
            1 <= i <= toks@.len(),
            tv == byte_seqs(toks@),
            lookup_views(items@) + lookup_items(tv, i as int) =~= lookup_items(tv, 1),
        decreases toks@.len() - i,
    {
        assert(tv[i as int] == toks@[i as int]@);
        let ghost prev = items@;
        let t = toks[i].as_slice();
        let item = if is_file(t) {
            Lookup::File
        } else if is_bind(t) {
            Lookup::Bind
        } else {
            Lookup::Extra(copy_bytes(t))
        };
        proof {
            let sitem = if tv[i as int] == kw_file() {
                LookupV::File
            } else if tv[i as int] == kw_bind() {
                LookupV::Bind
            } else {
                LookupV::Extra(tv[i as int])
            };
            assert(item@ == sitem);
        }
        items.push(item);
        proof {
            assert(lookup_views(items@) =~= lookup_views(prev).push(item@));
            assert(lookup_views(items@) + lookup_items(tv, i + 1) =~= lookup_items(tv, 1));
        }
        i += 1;
    }
    proof {
        assert(lookup_items(tv, i as int) =~= Seq::<LookupV>::empty());
        assert(lookup_views(items@) =~= lookup_items(tv, 1));
    }
    let mut cfg = cfg;
    let ghost c0 = cfg@;
    let ghost old_lookup = cfg.lookup@;
    cfg.lookup.append(&mut items);
    proof {
        assert(lookup_views(cfg.lookup@) =~= lookup_views(old_lookup) + lookup_items(tv, 1));
        assert(cfg@ =~= (ConfigV { lookup: c0.lookup + lookup_items(tv, 1), ..c0 }));
    }
    Ok(cfg)
}

fn do_family(cfg: Config, line: usize, toks: &Vec<Vec<u8>>) -> (r: Result<Config, ParseError>)
    requires
        toks@.len() >= 1,
    ensures
        match r {
            Ok(c2) => apply_family(cfg@, line as int, byte_seqs(toks@)) == Ok::<
                ConfigV,
                ParseError,
            >(c2@),
            Err(e) => apply_family(cfg@, line as int, byte_seqs(toks@)) == Err::<
                ConfigV,
                ParseError,
            >(e),
        },
{
    let ghost tv = byte_seqs(toks@);
    let mut items: Vec<Family> = Vec::new();
    let mut i: usize = 1;
    proof {
        if family_items(tv, 1) is Some {
            assert(Seq::<Family>::empty() + family_items(tv, 1).unwrap() =~= family_items(
                tv,
                1,
            ).unwrap());
        }
    }
    while i < toks.len()
        invariant
            1 <= i <= toks@.len(),
            tv == byte_seqs(toks@),
            family_items(tv, 1) == match family_items(tv, i as int) {
                Some(t) => Some(items@ + t),
                None => None::<Seq<Family>>,
            },
        decreases toks@.len() - i,
    {
        assert(tv[i as int] == toks@[i as int]@);
        let t = toks[i].as_slice();
        let item = if is_inet4(t) {
            Family::Inet4
        } else if is_inet6(t) {
            Family::Inet6
        } else {
            return Err(ParseError::InvalidValue { line });
        };
        proof {
            let tail = family_items(tv, i + 1);
            if tail is Some {
                assert(items@ + (seq![item] + tail.unwrap()) =~= items@.push(item) + tail.unwrap());
            }
        }
        items.push(item);
        i += 1;
    }
    proof {
        assert(family_items(tv, i as int) == Some(Seq::<Family>::empty()));
        assert(items@ + Seq::<Family>::empty() =~= items@);
    }
    let mut cfg = cfg;
    let ghost c0 = cfg@;
    let ghost old_family = cfg.family@;
    cfg.family.append(&mut items);
    proof {
        assert(cfg@.family =~= c0.family + family_items(tv, 1).unwrap());
        assert(cfg@ =~= (ConfigV { family: c0.family + family_items(tv, 1).unwrap(), ..c0 }));
    }
    Ok(cfg)
}

fn process_line(cfg: Config, line: usize, l: &[u8]) -> (r: Result<Config, ParseError>)
    ensures
        match r {
            Ok(c2) => spec_line(cfg@, line as int, l@) == Ok::<ConfigV, ParseError>(c2@),
            Err(e) => spec_line(cfg@, line as int, l@) == Err::<ConfigV, ParseError>(e),
        },
{
    if comment_line(l) {
        return Ok(cfg);
    }
    if !is_utf8(l) {
        return Err(ParseError::InvalidUtf8 { line });
    }
    let cut = cut_point(l);
    let trimmed = slice_subrange(l, 0, cut);
    proof {
        assert(trimmed@ =~= l@.take(cut_at(l@, 0)));
    }
    let toks = tokenize(trimmed);
    if toks.len() == 0 {
        return Ok(cfg);
    }
    let ghost tv = byte_seqs(toks@);
    assert(tv[0] == toks@[0]@);
    if is_nameserver(toks[0].as_slice()) {
        do_nameserver(cfg, line, &toks)
    } else if is_domain(toks[0].as_slice()) {
        do_domain(cfg, line, &toks)
    } else if is_search(toks[0].as_slice()) {
        do_search(cfg, &toks)
    } else if is_sortlist(toks[0].as_slice()) {
        do_sortlist(cfg, line, &toks)
    } else if is_options(toks[0].as_slice()) {
        do_options(cfg, line, &toks)
    } else if is_lookup(toks[0].as_slice()) {
        do_lookup(cfg, &toks)
    } else if is_family(toks[0].as_slice()) {
        do_family(cfg, line, &toks)
    } else {
        Err(ParseError::InvalidDirective { line })
    }
}

/// Parses a whole `resolv.conf` buffer into a configuration, or reports the
/// first error; the result is exactly what the specification-level grammar
/// assigns to the buffer, for every byte sequence.
pub fn parse(bytes: &[u8]) -> (r: Result<Config, ParseError>)
    ensures
        match r {
            Ok(c) => spec_parse(bytes@) == Ok::<ConfigV, ParseError>(c@),
            Err(e) => spec_parse(bytes@) == Err::<ConfigV, ParseError>(e),
        },
{
    let lines = split_bytes(bytes, 10);
    let ghost lv = byte_seqs(lines@);
    let mut cfg = Config::default();
    let mut idx: usize = 0;
    proof {
        assert(lv.skip(0) =~= lv);
    }
    while idx < lines.len()
        invariant
            idx <= lines@.len(),
            lv == byte_seqs(lines@),
            spec_parse_lines(cfg@, idx as int, lv.skip(idx as int)) == spec_parse(bytes@),
        decreases lines@.len() - idx,
    {
        assert(lv.skip(idx as int)[0] == lines@[idx as int]@);
        match process_line(cfg, idx, lines[idx].as_slice()) {
            Ok(c2) => {
                proof {
                    assert(lv.skip(idx as int).skip(1) =~= lv.skip(idx as int + 1));
                }
                cfg = c2;
            },
            Err(e) => {
                return Err(e);
            },
        }
        idx += 1;
    }
    proof {
        assert(lv.skip(lv.len() as int) =~= Seq::<Seq<u8>>::empty());
    }
    Ok(cfg)
}

} // verus!
