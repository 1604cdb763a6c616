//! The `listen` directive: address, port and options.

use vstd::prelude::*;
use crate::text::{
    chars_of, find_char, first_where, is_char, last_index_of, parse_unsigned, rfind_char, str_eq,
    string_of, unsigned_of,
};

verus! {

/// What a `listen` directive declares.
#[derive(Debug, PartialEq, Eq)]
pub struct ListenDirective {
    /// The address: an IP address, a host name, or `*`.
    pub address: String,
    /// The port.
    pub port: u16,
    /// Whether SSL is on.
    pub ssl: bool,
    /// Whether HTTP/2 is on.
    pub http2: bool,
    /// Whether HTTP/3 is on.
    pub http3: bool,
    /// Whether this is the default server.
    pub default_server: bool,
    /// Whether the port is reused.
    pub reuseport: bool,
    /// The backlog size, if one is given.
    pub backlog: Option<u32>,
}

/// The mathematical value of a [`ListenDirective`].
pub struct ListenView {
    pub address: Seq<char>,
    pub port: u16,
    pub ssl: bool,
    pub http2: bool,
    pub http3: bool,
    pub default_server: bool,
    pub reuseport: bool,
    pub backlog: Option<u32>,
}

impl View for ListenDirective {
    type V = ListenView;

    open spec fn view(&self) -> ListenView {
        ListenView {
            address: self.address@,
            port: self.port,
            ssl: self.ssl,
            http2: self.http2,
            http3: self.http3,
            default_server: self.default_server,
            reuseport: self.reuseport,
            backlog: self.backlog,
        }
    }
}

impl Clone for ListenDirective {
    fn clone(&self) -> (r: ListenDirective)
        ensures
            r@ == self@,
    {
        ListenDirective {
            address: self.address.clone(),
            port: self.port,
            ssl: self.ssl,
            http2: self.http2,
            http3: self.http3,
            default_server: self.default_server,
            reuseport: self.reuseport,
            backlog: self.backlog,
        }
    }
}

/// A listener on the given address and port with every option off.
pub open spec fn plain_listen(address: Seq<char>, port: u16) -> ListenView {
    ListenView {
        address,
        port,
        ssl: false,
        http2: false,
        http3: false,
        default_server: false,
        reuseport: false,
        backlog: None,
    }
}

/// The port that `s` stands for, if it is the numeral of one.
pub open spec fn port_of(s: Seq<char>) -> Option<u16> {
    match unsigned_of(s, 65535) {
        Some(n) => Some(n as u16),
        None => None,
    }
}

/// Address and port of `[address]:port`, where `addr` has that form: it
/// opens with `[`, and a `:` and the numeral of a port follow its first `]`.
pub open spec fn bracketed_address(addr: Seq<char>) -> Option<(Seq<char>, u16)> {
    let close = first_where(addr, 0, is_char(']'));
    if addr.len() > 0 && addr[0] == '[' && close < addr.len() && close + 1 < addr.len() && addr[close
        + 1] == ':' {
        match port_of(addr.skip(close + 2)) {
            Some(port) => Some((addr.subrange(1, close), port)),
            None => None,
        }
    } else {
        None
    }
}

/// Address and port of `address:port`, where `addr` has that form: the
/// numeral of a port follows its last `:`.
pub open spec fn split_address(addr: Seq<char>) -> Option<(Seq<char>, u16)> {
    match last_index_of(addr, ':') {
        Some(colon) => match port_of(addr.skip(colon + 1)) {
            Some(port) => Some((addr.take(colon), port)),
            None => None,
        },
        None => None,
    }
}

/// Address and port that the first argument of `listen` stands for.
///
/// A bare port listens on `*`. `[address]:port` and `address:port` give
/// both. Anything else is an address, on port 80.
pub open spec fn listen_address(addr: Seq<char>) -> (Seq<char>, u16) {
    if port_of(addr) is Some {
        ("*"@, port_of(addr).unwrap())
    } else if bracketed_address(addr) is Some {
        bracketed_address(addr).unwrap()
    } else if split_address(addr) is Some {
        split_address(addr).unwrap()
    } else {
        (addr, 80)
    }
}

/// Whether `arg` begins with `backlog=`.
pub open spec fn is_backlog(arg: Seq<char>) -> bool {
    arg.len() >= 8 && arg.take(8) == "backlog="@
}

/// The listener after one more option has been read. An option that is not
/// known changes nothing; `backlog=` with anything but a number takes the
/// backlog away.
pub open spec fn with_listen_option(l: ListenView, arg: Seq<char>) -> ListenView {
    if arg == "ssl"@ {
        ListenView { ssl: true, ..l }
    } else if arg == "http2"@ {
        ListenView { http2: true, ..l }
    } else if arg == "http3"@ {
        ListenView { http3: true, ..l }
    } else if arg == "default_server"@ || arg == "default"@ {
        ListenView { default_server: true, ..l }
    } else if arg == "reuseport"@ {
        ListenView { reuseport: true, ..l }
    } else if is_backlog(arg) {
        ListenView {
            backlog: match unsigned_of(arg.skip(8), 0xffff_ffff) {
                Some(n) => Some(n as u32),
                None => None,
            },
            ..l
        }
    } else {
        l
    }
}

/// The listener after the options `args` have been read, in order.
pub open spec fn with_listen_options(l: ListenView, args: Seq<Seq<char>>) -> ListenView
    decreases args.len(),
{
    if args.len() == 0 {
        l
    } else {
        with_listen_option(with_listen_options(l, args.drop_last()), args.last())
    }
}

/// What the arguments of a `listen` directive declare: the first gives
/// address and port, the others are options. Nothing without arguments.
pub open spec fn listen_of(args: Seq<Seq<char>>) -> Option<ListenView> {
    if args.len() == 0 {
        None
    } else {
        let (address, port) = listen_address(args[0]);
        Some(with_listen_options(plain_listen(address, port), args.skip(1)))
    }
}

fn parse_port(v: &Vec<char>, from: usize, to: usize) -> (r: Option<u16>)
    requires
        from <= to <= v.len(),
    ensures
        r == port_of(v@.subrange(from as int, to as int)),
{
    match parse_unsigned(v, from, to, 65535) {
        Some(n) => Some(n as u16),
        None => None,
    }
}

/// Address and port that the first argument of `listen` stands for; there
/// always is one.
pub fn parse_listen_address(addr: &str) -> (r: Option<(String, u16)>)
    ensures
        r matches Some(pair) && (pair.0@, pair.1) == listen_address(addr@),
{
    let v = chars_of(addr);
    let n = v.len();
    assert(v@.subrange(0, n as int) =~= v@);
    if let Some(port) = parse_port(&v, 0, n) {
        return Some(("*".to_owned(), port));
    }
    if n > 0 && v[0] == '[' {
        let close = find_char(&v, ']', 0);
        if close < n && close + 1 < n && v[close + 1] == ':' {
            assert(v@.subrange(close + 2, n as int) =~= v@.skip(close + 2));
            if let Some(port) = parse_port(&v, close + 2, n) {
                return Some((string_of(&v, 1, close), port));
            }
        }
    }
    if let Some(colon) = rfind_char(&v, ':') {
        assert(v@.subrange(colon + 1, n as int) =~= v@.skip(colon + 1));
        assert(v@.subrange(0, colon as int) =~= v@.take(colon as int));
        if let Some(port) = parse_port(&v, colon + 1, n) {
            return Some((string_of(&v, 0, colon), port));
        }
    }
    Some((addr.to_owned(), 80))
}

fn starts_with_backlog(v: &Vec<char>) -> (r: bool)
    ensures
        r == is_backlog(v@),
{
    proof {
        reveal_strlit("backlog=");
    }
    if v.len() < 8 {
        return false;
    }
    let r = v[0] == 'b' && v[1] == 'a' && v[2] == 'c' && v[3] == 'k' && v[4] == 'l' && v[5] == 'o'
        && v[6] == 'g' && v[7] == '=';
    proof {
        if r {
            assert(v@.take(8) =~= "backlog="@);
        } else {
            assert(v@.take(8)[0] == v@[0]);
            assert(v@.take(8)[1] == v@[1]);
            assert(v@.take(8)[2] == v@[2]);
            assert(v@.take(8)[3] == v@[3]);
            assert(v@.take(8)[4] == v@[4]);
            assert(v@.take(8)[5] == v@[5]);
            assert(v@.take(8)[6] == v@[6]);
            assert(v@.take(8)[7] == v@[7]);
        }
    }
    r
}

impl ListenDirective {
    /// A listener on the given address and port, with every option off.
    pub fn new(address: &str, port: u16) -> (r: ListenDirective)
        ensures
            r@ == plain_listen(address@, port),
    {
        ListenDirective {
            address: address.to_owned(),
            port,
            ssl: false,
            http2: false,
            http3: false,
            default_server: false,
            reuseport: false,
            backlog: None,
        }
    }

    fn apply_option(&mut self, arg: &str)
        ensures
            final(self)@ == with_listen_option(old(self)@, arg@),
    {
        if str_eq(arg, "ssl") {
            self.ssl = true;
        } else if str_eq(arg, "http2") {
            self.http2 = true;
        } else if str_eq(arg, "http3") {
            self.http3 = true;
        } else if str_eq(arg, "default_server") || str_eq(arg, "default") {
            self.default_server = true;
        } else if str_eq(arg, "reuseport") {
            self.reuseport = true;
        } else {
            let v = chars_of(arg);
            if starts_with_backlog(&v) {
                assert(v@.subrange(8, v@.len() as int) =~= v@.skip(8));
                self.backlog = parse_unsigned(&v, 8, v.len(), 0xffff_ffff);
            }
        }
    }

    /// What the arguments of a `listen` directive declare; `None` where
    /// there is no argument.
    pub fn from_args(args: &[String]) -> (r: Option<ListenDirective>)
        ensures
            match r {
                Some(l) => listen_of(crate::ast::directive::strings_view(args@)) == Some(l@),
                None => listen_of(crate::ast::directive::strings_view(args@)) is None,
            },
    {
        let ghost texts = crate::ast::directive::strings_view(args@);
        if args.len() == 0 {
            return None;
        }
        let (address, port) = match parse_listen_address(args[0].as_str()) {
            Some(pair) => pair,
            None => {
                return None;
            },
        };
        let mut directive = ListenDirective {
            address,
            port,
            ssl: false,
            http2: false,
            http3: false,
            default_server: false,
            reuseport: false,
            backlog: None,
        };
        let ghost base = directive@;
        let mut i: usize = 1;
        assert(texts.skip(1).take(0) =~= Seq::<Seq<char>>::empty());
        while i < args.len()
            invariant
                1 <= i <= args.len(),
                texts == crate::ast::directive::strings_view(args@),
                directive@ == with_listen_options(base, texts.skip(1).take(i - 1)),
            decreases args.len() - i,
        {
            proof {
                let next = texts.skip(1).take(i as int);
                assert(next.drop_last() =~= texts.skip(1).take(i - 1));
                assert(next.last() == args@[i as int]@);
            }
            directive.apply_option(args[i].as_str());
            i += 1;
        }
        assert(texts.skip(1).take(args.len() - 1) =~= texts.skip(1));
        Some(directive)
    }
}

} // verus!
