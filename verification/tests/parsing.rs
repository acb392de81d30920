use resolv_conf::{
    ip_v4_netw, ip_v6_netw, parse, Config, Family, Ip, Ipv4Addr, Ipv6Addr, Lookup, Network,
    ParseError,
};

fn v4(a: u8, b: u8, c: u8, d: u8) -> Ipv4Addr {
    Ipv4Addr::new(a, b, c, d)
}

#[test]
fn parse_full_example() {
    let text = b"options ndots:8 timeout:8 attempts:8\n\ndomain example.com\nsearch example.com sub.example.com\n\nnameserver 2001:4860:4860::8888\nnameserver 8.8.8.8\n\noptions rotate\noptions inet6 no-tld-query\n\nsortlist 130.155.160.0/255.255.240.0 130.155.0.0";
    let cfg = parse(text).unwrap();
    assert_eq!(
        cfg.nameservers,
        vec![
            Ip::V6(Ipv6Addr::new(0x2001, 0x4860, 0x4860, 0, 0, 0, 0, 0x8888), None),
            Ip::V4(v4(8, 8, 8, 8)),
        ]
    );
    assert_eq!(cfg.domain, Some(b"example.com".to_vec()));
    assert_eq!(
        cfg.search,
        vec![b"example.com".to_vec(), b"sub.example.com".to_vec()]
    );
    assert_eq!(
        cfg.sortlist,
        vec![
            Network::V4(v4(130, 155, 160, 0), v4(255, 255, 240, 0)),
            Network::V4(v4(130, 155, 0, 0), v4(255, 255, 0, 0)),
        ]
    );
    assert_eq!(cfg.ndots, 8);
    assert_eq!(cfg.timeout, 8);
    assert_eq!(cfg.attempts, 8);
    assert!(cfg.rotate);
    assert!(cfg.inet6);
    assert!(cfg.no_tld_query);
    assert!(!cfg.debug);
    assert!(!cfg.use_vc);
}

#[test]
fn parse_is_deterministic() {
    let text = b"nameserver 1.2.3.4\nsearch a b c\noptions ndots:3\nsortlist 10.0.0.0";
    let one = parse(text).unwrap();
    let two = parse(text).unwrap();
    assert_eq!(one, two);
}

#[test]
fn comments_and_blank_lines_change_nothing() {
    let plain = parse(b"nameserver 1.2.3.4").unwrap();
    let noisy = parse(
        b"; leading comment\n\n\t \nnameserver 1.2.3.4\n# trailing comment\n   # indented\n",
    )
    .unwrap();
    assert_eq!(plain, noisy);
}

#[test]
fn comment_lines_tolerate_invalid_utf8() {
    let mut text = b"# bad bytes: ".to_vec();
    text.push(0xFF);
    text.push(0xFE);
    text.extend_from_slice(b"\nnameserver 1.2.3.4");
    let cfg = parse(&text).unwrap();
    assert_eq!(cfg.nameservers, vec![Ip::V4(v4(1, 2, 3, 4))]);
}

#[test]
fn invalid_utf8_on_directive_line_is_an_error() {
    let mut text = b"nameserver 1.2.3.4\nsearch ".to_vec();
    text.push(0xFF);
    assert_eq!(parse(&text), Err(ParseError::InvalidUtf8 { line: 1 }));
}

#[test]
fn invalid_utf8_after_inline_comment_is_an_error() {
    let mut text = b"nameserver 1.2.3.4 ;".to_vec();
    text.push(0xC0);
    assert_eq!(parse(&text), Err(ParseError::InvalidUtf8 { line: 0 }));
}

#[test]
fn inline_comments_are_stripped() {
    let cfg = parse(b"nameserver 1.2.3.4 # a comment\ndomain here.example ; another").unwrap();
    assert_eq!(cfg.nameservers, vec![Ip::V4(v4(1, 2, 3, 4))]);
    assert_eq!(cfg.domain, Some(b"here.example".to_vec()));
}

#[test]
fn bare_search_replaces_the_whole_list() {
    let cfg = parse(b"search a b\nnameserver 1.1.1.1\nsearch").unwrap();
    assert_eq!(cfg.search, Vec::<Vec<u8>>::new());
    let cfg = parse(b"search a b\nsearch c").unwrap();
    assert_eq!(cfg.search, vec![b"c".to_vec()]);
}

#[test]
fn sortlist_rejects_the_unspecified_network() {
    assert_eq!(
        parse(b"sortlist 0.0.0.0"),
        Err(ParseError::InvalidIp { line: 0, err: resolv_conf::AddrParseError })
    );
    assert_eq!(
        parse(b"sortlist 0.0.0.0/255.0.0.0"),
        Err(ParseError::InvalidIp { line: 0, err: resolv_conf::AddrParseError })
    );
}

#[test]
fn sortlist_infers_whole_octet_masks() {
    let cfg = parse(b"sortlist 130.155.160.0/255.255.240.0 130.155.0.0").unwrap();
    assert_eq!(
        cfg.sortlist,
        vec![
            Network::V4(v4(130, 155, 160, 0), v4(255, 255, 240, 0)),
            Network::V4(v4(130, 155, 0, 0), v4(255, 255, 0, 0)),
        ]
    );
    let cfg = parse(b"sortlist 10.0.0.1 10.1.0.0 10.0.0.0").unwrap();
    assert_eq!(
        cfg.sortlist,
        vec![
            Network::V4(v4(10, 0, 0, 1), v4(255, 255, 255, 255)),
            Network::V4(v4(10, 1, 0, 0), v4(255, 255, 0, 0)),
            Network::V4(v4(10, 0, 0, 0), v4(255, 0, 0, 0)),
        ]
    );
}

#[test]
fn sortlist_is_rebuilt_by_each_directive() {
    let cfg = parse(b"sortlist 10.0.0.0 11.0.0.0\nsortlist 12.0.0.0").unwrap();
    assert_eq!(cfg.sortlist, vec![Network::V4(v4(12, 0, 0, 0), v4(255, 0, 0, 0))]);
    let cfg = parse(b"sortlist 10.0.0.0\nsortlist").unwrap();
    assert_eq!(cfg.sortlist, Vec::<Network>::new());
}

#[test]
fn sortlist_validates_explicit_masks() {
    assert!(parse(b"sortlist 10.0.0.0/255.0.255.0").is_err());
    assert!(parse(b"sortlist 10.0.0.0/0.0.0.0").is_err());
    let cfg = parse(b"sortlist 10.0.0.0/255.192.0.0").unwrap();
    assert_eq!(cfg.sortlist, vec![Network::V4(v4(10, 0, 0, 0), v4(255, 192, 0, 0))]);
}

#[test]
fn sortlist_accepts_ipv6_networks() {
    let cfg = parse(b"sortlist fe80::/ffff:: 2001:db8::1").unwrap();
    assert_eq!(
        cfg.sortlist,
        vec![
            Network::V6(
                Ipv6Addr::new(0xfe80, 0, 0, 0, 0, 0, 0, 0),
                Ipv6Addr::new(0xffff, 0, 0, 0, 0, 0, 0, 0)
            ),
            Network::V6(
                Ipv6Addr::new(0x2001, 0xdb8, 0, 0, 0, 0, 0, 1),
                Ipv6Addr::new(65535, 65535, 65535, 65535, 65535, 65535, 65535, 65535)
            ),
        ]
    );
}

#[test]
fn unknown_directive_is_rejected() {
    assert_eq!(
        parse(b"nameserver 1.2.3.4\nfrobnicate x"),
        Err(ParseError::InvalidDirective { line: 1 })
    );
}

#[test]
fn option_errors_are_distinguished() {
    assert_eq!(
        parse(b"options ndots:abc"),
        Err(ParseError::InvalidOptionValue { line: 0 })
    );
    assert_eq!(parse(b"options bogus"), Err(ParseError::InvalidOption { line: 0 }));
    assert_eq!(parse(b"options ndots"), Err(ParseError::InvalidOptionValue { line: 0 }));
    assert_eq!(
        parse(b"options ndots:1:2"),
        Err(ParseError::ExtraData { line: 0 })
    );
    assert_eq!(
        parse(b"options ndots:99999999999"),
        Err(ParseError::InvalidOptionValue { line: 0 })
    );
}

#[test]
fn option_flags_are_set_and_later_occurrences_win() {
    let cfg = parse(
        b"options debug rotate no-check-names ip6-bytestring ip6-dotint edns0\noptions single-request single-request-reopen no-reload trust-ad use-vc\noptions ndots:2\noptions ndots:7",
    )
    .unwrap();
    assert!(cfg.debug);
    assert!(cfg.rotate);
    assert!(cfg.no_check_names);
    assert!(cfg.ip6_bytestring);
    assert!(cfg.ip6_dotint);
    assert!(cfg.edns0);
    assert!(cfg.single_request);
    assert!(cfg.single_request_reopen);
    assert!(cfg.no_reload);
    assert!(cfg.trust_ad);
    assert!(cfg.use_vc);
    assert_eq!(cfg.ndots, 7);
}

#[test]
fn no_ip6_dotint_clears_the_flag() {
    let cfg = parse(b"options ip6-dotint no-ip6-dotint").unwrap();
    assert!(!cfg.ip6_dotint);
}

#[test]
fn lookup_is_permissive_and_family_is_strict() {
    let cfg = parse(b"lookup anything").unwrap();
    assert_eq!(cfg.lookup, vec![Lookup::Extra(b"anything".to_vec())]);
    assert_eq!(parse(b"family anything"), Err(ParseError::InvalidValue { line: 0 }));
}

#[test]
fn lookup_and_family_append_across_directives() {
    let cfg = parse(b"lookup file\nlookup bind other\nfamily inet4\nfamily inet6").unwrap();
    assert_eq!(
        cfg.lookup,
        vec![Lookup::File, Lookup::Bind, Lookup::Extra(b"other".to_vec())]
    );
    assert_eq!(cfg.family, vec![Family::Inet4, Family::Inet6]);
}

#[test]
fn nameserver_with_trailing_tokens_is_extra_data() {
    assert_eq!(
        parse(b"nameserver 8.8.8.8 extra"),
        Err(ParseError::ExtraData { line: 0 })
    );
}

#[test]
fn nameserver_errors() {
    assert_eq!(parse(b"nameserver"), Err(ParseError::InvalidValue { line: 0 }));
    assert_eq!(
        parse(b"nameserver not-an-ip"),
        Err(ParseError::InvalidIp { line: 0, err: resolv_conf::AddrParseError })
    );
}

#[test]
fn domain_directive_overwrites_and_checks_arity() {
    let cfg = parse(b"domain one.example\ndomain two.example").unwrap();
    assert_eq!(cfg.domain, Some(b"two.example".to_vec()));
    assert_eq!(parse(b"domain"), Err(ParseError::InvalidValue { line: 0 }));
    assert_eq!(parse(b"domain a b"), Err(ParseError::ExtraData { line: 0 }));
}

#[test]
fn default_numeric_options() {
    let cfg = parse(b"").unwrap();
    assert_eq!(cfg, Config::default());
    assert_eq!(cfg.ndots, 1);
    assert_eq!(cfg.timeout, 5);
    assert_eq!(cfg.attempts, 2);
}

#[test]
fn ipv4_literals_are_strict() {
    assert!(parse(b"nameserver 01.2.3.4").is_err());
    assert!(parse(b"nameserver 256.1.1.1").is_err());
    assert!(parse(b"nameserver 1.2.3").is_err());
    assert!(parse(b"nameserver 1.2.3.4.5").is_err());
    let cfg = parse(b"nameserver 0.0.0.0").unwrap();
    assert_eq!(cfg.nameservers, vec![Ip::V4(v4(0, 0, 0, 0))]);
}

#[test]
fn ipv6_literal_forms() {
    let cases: &[(&[u8], [u16; 8])] = &[
        (b"::", [0, 0, 0, 0, 0, 0, 0, 0]),
        (b"::1", [0, 0, 0, 0, 0, 0, 0, 1]),
        (b"1::", [1, 0, 0, 0, 0, 0, 0, 0]),
        (b"1:2:3:4:5:6:7:8", [1, 2, 3, 4, 5, 6, 7, 8]),
        (b"1:2:3:4:5:6:7::", [1, 2, 3, 4, 5, 6, 7, 0]),
        (b"::ffff:1.2.3.4", [0, 0, 0, 0, 0, 0xffff, 0x0102, 0x0304]),
        (b"2001:db8::8:800:200c:417a", [0x2001, 0xdb8, 0, 0, 0x8, 0x800, 0x200c, 0x417a]),
        (b"1:2:3:4:5:6:77.77.88.88", [1, 2, 3, 4, 5, 6, 0x4d4d, 0x5858]),
    ];
    for (text, segs) in cases {
        let mut line = b"nameserver ".to_vec();
        line.extend_from_slice(text);
        let cfg = parse(&line).unwrap();
        assert_eq!(
            cfg.nameservers,
            vec![Ip::V6(
                Ipv6Addr::new(
                    segs[0], segs[1], segs[2], segs[3], segs[4], segs[5], segs[6], segs[7]
                ),
                None
            )],
            "case {:?}",
            String::from_utf8_lossy(text)
        );
    }
    for bad in [
        &b"1:::2"[..],
        b":::",
        b"1:2",
        b"1:2:3:4:5:6:7:8:9",
        b"1:2:3:4:5:6:7::8",
        b"12345::",
        b":1:2:3:4:5:6:7",
        b"1::2::3",
        b"g::1",
        b"1:2:3:4:5:1.2.3.4",
    ] {
        let mut line = b"nameserver ".to_vec();
        line.extend_from_slice(bad);
        assert!(
            parse(&line).is_err(),
            "expected failure on {:?}",
            String::from_utf8_lossy(bad)
        );
    }
}

#[test]
fn network_token_parsers_work_directly() {
    assert_eq!(
        ip_v4_netw(b"192.168.1.1"),
        Ok(Network::V4(v4(192, 168, 1, 1), v4(255, 255, 255, 255)))
    );
    assert!(ip_v4_netw(b"0.0.0.0").is_err());
    assert!(ip_v4_netw(b"fe80::").is_err());
    assert_eq!(
        ip_v6_netw(b"fe80::/ffff::"),
        Ok(Network::V6(
            Ipv6Addr::new(0xfe80, 0, 0, 0, 0, 0, 0, 0),
            Ipv6Addr::new(0xffff, 0, 0, 0, 0, 0, 0, 0)
        ))
    );
}

#[test]
fn errors_report_the_failing_line() {
    assert_eq!(
        parse(b"nameserver 1.1.1.1\n\n# fine\nfamily inet4 nope"),
        Err(ParseError::InvalidValue { line: 3 })
    );
}

#[test]
fn whitespace_runs_and_tabs_separate_tokens() {
    let cfg = parse(b"search \t a\t\tb   c ").unwrap();
    assert_eq!(cfg.search, vec![b"a".to_vec(), b"b".to_vec(), b"c".to_vec()]);
}
