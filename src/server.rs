//! The HTTP surface: which handler a request path reaches, the headers of a live stream,
//! in-stream ICY title blocks, and the status of each stream.
use crate::text::{strings, decimal, fmt_decimal, same_text, substring};
use vstd::prelude::*;

verus! {

/// Audio bytes between two ICY metadata blocks.
pub const ICY_METAINT: usize = 16000;

/// Longest ICY metadata block body: the length byte counts 16-byte units.
pub const ICY_MAX_BODY: usize = 4080;

#[derive(Debug, Clone, Copy, PartialEq, Eq, Structural)]
pub enum Route {
    /// The live stream at this index.
    Stream(usize),
    Status,
    Current,
    Info,
    ApiDocs,
    OpenApiSpec,
    NotFound,
}

/// The request path without its leading `/`.
pub open spec fn path_tail(path: Seq<char>) -> Seq<char> {
    if path.len() > 0 && path[0] == '/' {
        path.drop_first()
    } else {
        path
    }
}

/// The index of the first stream named `name`.
pub open spec fn first_named(names: Seq<Seq<char>>, name: Seq<char>) -> Option<int>
    decreases names.len(),
{
    if names.len() == 0 {
        None
    } else if names.last() == name {
        match first_named(names.drop_last(), name) {
            Some(i) => Some(i),
            None => Some(names.len() - 1),
        }
    } else {
        first_named(names.drop_last(), name)
    }
}

/// Where a GET of `path` goes: a stream's name comes first, then the fixed routes.
pub open spec fn route_of(path: Seq<char>, names: Seq<Seq<char>>) -> Route {
    let t = path_tail(path);
    if t.len() == 0 {
        Route::Info
    } else if first_named(names, t) is Some {
        Route::Stream(first_named(names, t)->0 as usize)
    } else if t == "status"@ {
        Route::Status
    } else if t == "current"@ {
        Route::Current
    } else if t == "api-docs"@ {
        Route::ApiDocs
    } else if t == "api-docs/openapi.yaml"@ {
        Route::OpenApiSpec
    } else {
        Route::NotFound
    }
}

fn find_stream(names: &Vec<String>, name: &str) -> (r: Option<usize>)
    ensures
        match r {
            Some(i) => first_named(strings(names@), name@) == Some(i as int),
            None => first_named(strings(names@), name@) is None,
        },
{
    let mut i: usize = 0;
    assert(strings(names@).subrange(0, 0) =~= Seq::<Seq<char>>::empty());
    while i < names.len()
        invariant
            i <= names@.len(),
            first_named(strings(names@).subrange(0, i as int), name@) is None,
        decreases names@.len() - i,
    {
        let ghost pre = strings(names@).subrange(0, i + 1);
        assert(pre.drop_last() =~= strings(names@).subrange(0, i as int));
        if same_text(names[i].as_str(), name) {
            proof {
                lemma_first_named_extend(strings(names@), name@, i as int + 1);
            }
            return Some(i);
        }
        i = i + 1;
    }
    assert(strings(names@).subrange(0, names@.len() as int) =~= strings(names@));
    None
}

/// A match at `n - 1` after none before is the first match of the whole list.
proof fn lemma_first_named_extend(names: Seq<Seq<char>>, name: Seq<char>, n: int)
    requires
        1 <= n <= names.len(),
        first_named(names.subrange(0, n - 1), name) is None,
        names[n - 1] == name,
    ensures
        first_named(names, name) == Some(n - 1),
    decreases names.len(),
{
    if n == names.len() {
        assert(names.drop_last() =~= names.subrange(0, n - 1));
    } else {
        assert(names.drop_last().subrange(0, n - 1) =~= names.subrange(0, n - 1));
        lemma_first_named_extend(names.drop_last(), name, n);
    }
}

/// The handler for a GET of `path`, given the names of the streams.
pub fn route(path: &str, stream_names: &Vec<String>) -> (r: Route)
    ensures
        r == route_of(path@, strings(stream_names@)),
{
    let n = path.unicode_len();
    let tail = if n > 0 && path.get_char(0) == '/' {
        substring(path, 1, n)
    } else {
        String::from_str(path)
    };
    assert(path@.len() > 0 && path@[0] == '/' ==> path@.subrange(1, n as int) =~= path@.drop_first());
    let t = tail.as_str();
    if t.unicode_len() == 0 {
        return Route::Info;
    }
    match find_stream(stream_names, t) {
        Some(i) => {
            return Route::Stream(i);
        },
        None => {},
    }
    if same_text(t, "status") {
        Route::Status
    } else if same_text(t, "current") {
        Route::Current
    } else if same_text(t, "api-docs") {
        Route::ApiDocs
    } else if same_text(t, "api-docs/openapi.yaml") {
        Route::OpenApiSpec
    } else {
        Route::NotFound
    }
}

/// HTTP status code of a route: 404 for an unknown path.
pub fn status_code(r: Route) -> (c: u16)
    ensures
        c == if r == Route::NotFound {
            404u16
        } else {
            200u16
        },
{
    match r {
        Route::NotFound => 404,
        _ => 200,
    }
}

/// `"online"` while a stream's writer runs, `"offline"` after.
pub fn stream_status_text(running: bool) -> (r: &'static str)
    ensures
        r@ == if running {
            "online"@
        } else {
            "offline"@
        },
{
    if running {
        "online"
    } else {
        "offline"
    }
}

pub open spec fn pair(a: Seq<char>, b: Seq<char>) -> (Seq<char>, Seq<char>) {
    (a, b)
}

pub open spec fn pairs(v: Seq<(String, String)>) -> Seq<(Seq<char>, Seq<char>)> {
    v.map_values(|p: (String, String)| (p.0@, p.1@))
}

/// The `Server` header's value: this library's name and version.
pub open spec fn server_name() -> Seq<char> {
    "funkstrom/0.1.0"@
}

/// Headers of a live stream response. Title blocks are injected every `ICY_METAINT` audio
/// bytes (see `IcyInjector`), so `icy-metaint` is always announced.
pub open spec fn stream_header_list(
    name: Seq<char>,
    description: Seq<char>,
    genre: Seq<char>,
    bitrate: u32,
) -> Seq<(Seq<char>, Seq<char>)> {
    seq![
        pair("Content-Type"@, "audio/mpeg"@),
        pair("Cache-Control"@, "no-cache, no-store"@),
        pair("Connection"@, "close"@),
        pair("Pragma"@, "no-cache"@),
        pair("Accept-Ranges"@, "none"@),
        pair("Access-Control-Allow-Origin"@, "*"@),
        pair("Access-Control-Allow-Methods"@, "GET, POST, OPTIONS"@),
        pair("Access-Control-Allow-Headers"@, "Content-Type"@),
        pair("icy-name"@, name),
        pair("icy-description"@, description),
        pair("icy-genre"@, genre),
        pair("icy-br"@, decimal(bitrate as nat)),
        pair("icy-metaint"@, "16000"@),
        pair("Server"@, server_name()),
    ]
}

fn header(name: &str, value: &str) -> (r: (String, String))
    ensures
        r.0@ == name@,
        r.1@ == value@,
{
    (String::from_str(name), String::from_str(value))
}

pub fn stream_headers(
    station_name: &str,
    description: &str,
    genre: &str,
    bitrate: u32,
) -> (r: Vec<(String, String)>)
    ensures
        pairs(r@) == stream_header_list(station_name@, description@, genre@, bitrate),
{
    let mut h: Vec<(String, String)> = Vec::new();
    h.push(header("Content-Type", "audio/mpeg"));
    h.push(header("Cache-Control", "no-cache, no-store"));
    h.push(header("Connection", "close"));
    h.push(header("Pragma", "no-cache"));
    h.push(header("Accept-Ranges", "none"));
    h.push(header("Access-Control-Allow-Origin", "*"));
    h.push(header("Access-Control-Allow-Methods", "GET, POST, OPTIONS"));
    h.push(header("Access-Control-Allow-Headers", "Content-Type"));
    h.push(header("icy-name", station_name));
    h.push(header("icy-description", description));
    h.push(header("icy-genre", genre));
    let br = fmt_decimal(bitrate as u64);
    h.push(header("icy-br", br.as_str()));
    h.push(header("icy-metaint", "16000"));
    h.push(header("Server", "funkstrom/0.1.0"));
    assert(pairs(h@) =~= stream_header_list(station_name@, description@, genre@, bitrate));
    h
}

/// An ICY metadata block for a title: a length byte counting 16-byte units, then
/// `StreamTitle='<title>';` cut to 4080 bytes and padded with zero bytes.
pub open spec fn icy_block(title_bytes: Seq<u8>) -> Seq<u8> {
    let full = "StreamTitle='"@.map_values(|c: char| c as u8) + title_bytes + "';"@.map_values(
        |c: char| c as u8,
    );
    let body = if full.len() > ICY_MAX_BODY {
        full.subrange(0, ICY_MAX_BODY as int)
    } else {
        full
    };
    let units = (body.len() + 15) / 16;
    seq![units as u8] + body + Seq::new((units * 16 - body.len()) as nat, |i: int| 0u8)
}

fn push_ascii(v: &mut Vec<u8>, s: &str)
    requires
        s@.len() < 100,
        forall|i: int| 0 <= i < s@.len() ==> (#[trigger] s@[i]) as u32 <= 127,
    ensures
        final(v)@ == old(v)@ + s@.map_values(|c: char| c as u8),
{
    let n = s.unicode_len();
    let mut i: usize = 0;
    while i < n
        invariant
            n == s@.len(),
            i <= n,
            v@ == old(v)@ + s@.subrange(0, i as int).map_values(|c: char| c as u8),
        decreases n - i,
    {
        let c = s.get_char(i);
        v.push(c as u8);
        assert(s@.subrange(0, i + 1).map_values(|c: char| c as u8) =~= s@.subrange(
            0,
            i as int,
        ).map_values(|c: char| c as u8).push(c as u8));
        i = i + 1;
    }
    assert(s@.subrange(0, n as int) =~= s@);
}

/// The metadata block announcing `title`, given as its UTF-8 bytes.
pub fn icy_metadata_block(title_bytes: &Vec<u8>) -> (r: Vec<u8>)
    ensures
        r@ == icy_block(title_bytes@),
{
    let mut full: Vec<u8> = Vec::new();
    proof {
        reveal_strlit("StreamTitle='");
        reveal_strlit("';");
    }
    push_ascii(&mut full, "StreamTitle='");
    let mut j: usize = 0;
    let ghost start = full@;
    while j < title_bytes.len()
        invariant
            j <= title_bytes@.len(),
            full@ == start + title_bytes@.subrange(0, j as int),
        decreases title_bytes@.len() - j,
    {
        full.push(title_bytes[j]);
        assert(title_bytes@.subrange(0, j + 1) =~= title_bytes@.subrange(0, j as int).push(
            title_bytes@[j as int],
        ));
        j = j + 1;
    }
    assert(title_bytes@.subrange(0, title_bytes@.len() as int) =~= title_bytes@);
    push_ascii(&mut full, "';");
    let ghost full_spec = full@;
    let body_len: usize = if full.len() > ICY_MAX_BODY {
        ICY_MAX_BODY
    } else {
        full.len()
    };
    let units: usize = (body_len + 15) / 16;
    let mut out: Vec<u8> = Vec::new();
    out.push(units as u8);
    let mut k: usize = 0;
    while k < body_len
        invariant
            k <= body_len,
            body_len <= full@.len(),
            full@ == full_spec,
            out@ == seq![units as u8] + full_spec.subrange(0, k as int),
        decreases body_len - k,
    {
        out.push(full[k]);
        assert(full_spec.subrange(0, k + 1) =~= full_spec.subrange(0, k as int).push(
            full_spec[k as int],
        ));
        k = k + 1;
    }
    let pad: usize = units * 16 - body_len;
    let mut p: usize = 0;
    let ghost body = full_spec.subrange(0, body_len as int);
    while p < pad
        invariant
            p <= pad,
            out@ == seq![units as u8] + body + Seq::new(p as nat, |i: int| 0u8),
        decreases pad - p,
    {
        out.push(0u8);
        assert(Seq::new((p + 1) as nat, |i: int| 0u8) =~= Seq::new(p as nat, |i: int| 0u8).push(
            0u8,
        ));
        p = p + 1;
    }
    assert(full_spec.len() <= ICY_MAX_BODY ==> body =~= full_spec);
    out
}

/// `data` with `block` inserted after every `ICY_METAINT` audio bytes, the first one once
/// `until` more audio bytes have passed.
pub open spec fn interleave(until: nat, data: Seq<u8>, block: Seq<u8>) -> Seq<u8>
    decreases data.len(),
{
    if until == 0 || data.len() < until {
        data
    } else {
        data.subrange(0, until as int) + block + interleave(
            ICY_METAINT as nat,
            data.subrange(until as int, data.len() as int),
            block,
        )
    }
}

/// `out` with the blocks of length `block_len` that follow every `ICY_METAINT` audio bytes
/// taken out again, the first one after `until` bytes.
pub open spec fn strip_blocks(until: nat, out: Seq<u8>, block_len: nat) -> Seq<u8>
    decreases out.len(),
{
    if until == 0 || out.len() < until {
        out
    } else if out.len() < until + block_len {
        out.subrange(0, until as int)
    } else {
        out.subrange(0, until as int) + strip_blocks(
            ICY_METAINT as nat,
            out.subrange((until + block_len) as int, out.len() as int),
            block_len,
        )
    }
}

/// Taking the title blocks out of what a listener receives gives back the audio bytes,
/// unchanged and in order.
pub proof fn lemma_strip_blocks_gives_audio(until: nat, data: Seq<u8>, block: Seq<u8>)
    ensures
        strip_blocks(until, interleave(until, data, block), block.len()) == data,
    decreases data.len(),
{
    if until == 0 || data.len() < until {
    } else {
        let rest = data.subrange(until as int, data.len() as int);
        lemma_strip_blocks_gives_audio(ICY_METAINT as nat, rest, block);
        let tail = interleave(ICY_METAINT as nat, rest, block);
        let out = data.subrange(0, until as int) + block + tail;
        assert(out.subrange(0, until as int) =~= data.subrange(0, until as int));
        assert(out.subrange((until + block.len()) as int, out.len() as int) =~= tail);
        assert(data.subrange(0, until as int) + rest =~= data);
    }
}

/// Audio bytes left before the next block once `len` more bytes have been sent.
pub open spec fn remaining_after(until: nat, len: nat) -> nat
    decreases len,
{
    if until == 0 || len < until {
        (until - len) as nat
    } else {
        remaining_after(ICY_METAINT as nat, (len - until) as nat)
    }
}

/// Counts audio bytes sent to one listener and inserts title blocks on the ICY interval.
pub struct IcyInjector {
    until_meta: usize,
}

impl IcyInjector {
    pub closed spec fn until(&self) -> nat {
        self.until_meta as nat
    }

    pub closed spec fn wf(&self) -> bool {
        1 <= self.until_meta <= ICY_METAINT
    }

    pub fn new() -> (r: Self)
        ensures
            r.wf(),
            r.until() == ICY_METAINT,
    {
        IcyInjector { until_meta: ICY_METAINT }
    }

    /// The bytes to send for one chunk of audio, with `block` wherever the interval
    /// falls.
    pub fn inject(&mut self, data: &Vec<u8>, block: &Vec<u8>) -> (r: Vec<u8>)
        requires
            old(self).wf(),
        ensures
            final(self).wf(),
            r@ == interleave(old(self).until(), data@, block@),
            final(self).until() == remaining_after(old(self).until(), data@.len()),
    {
        let mut out: Vec<u8> = Vec::new();
        let mut pos: usize = 0;
        let n = data.len();
        let ghost first = self.until_meta as nat;
        assert(data@.subrange(0, n as int) =~= data@);
        assert(out@ + interleave(first, data@, block@) =~= interleave(first, data@, block@));
        while n - pos >= self.until_meta
            invariant
                n == data@.len(),
                pos <= n,
                1 <= self.until_meta <= ICY_METAINT,
                out@ + interleave(self.until_meta as nat, data@.subrange(pos as int, n as int), block@)
                    == interleave(first, data@, block@),
                remaining_after(self.until_meta as nat, (n - pos) as nat) == remaining_after(
                    first,
                    n as nat,
                ),
            decreases n - pos,
        {
            let ghost rest = data@.subrange(pos as int, n as int);
            let ghost u = self.until_meta as nat;
            let stop = pos + self.until_meta;
            let mut k: usize = pos;
            let ghost out0 = out@;
            while k < stop
                invariant
                    pos <= k <= stop,
                    stop <= n,
                    n == data@.len(),
                    out@ == out0 + data@.subrange(pos as int, k as int),
                decreases stop - k,
            {
                out.push(data[k]);
                assert(data@.subrange(pos as int, k + 1) =~= data@.subrange(pos as int, k as int).push(
                    data@[k as int],
                ));
                k = k + 1;
            }
            let mut b: usize = 0;
            let ghost out1 = out@;
            while b < block.len()
                invariant
                    b <= block@.len(),
                    out@ == out1 + block@.subrange(0, b as int),
                decreases block@.len() - b,
            {
                out.push(block[b]);
                assert(block@.subrange(0, b + 1) =~= block@.subrange(0, b as int).push(
                    block@[b as int],
                ));
                b = b + 1;
            }
            assert(block@.subrange(0, block@.len() as int) =~= block@);
            assert(rest.subrange(0, u as int) =~= data@.subrange(pos as int, stop as int));
            assert(rest.subrange(u as int, rest.len() as int) =~= data@.subrange(
                stop as int,
                n as int,
            ));
            assert(out@ + interleave(ICY_METAINT as nat, data@.subrange(stop as int, n as int), block@)
                =~= out0 + interleave(u, rest, block@));
            pos = stop;
            self.until_meta = ICY_METAINT;
        }
        let mut k: usize = pos;
        let ghost out0 = out@;
        while k < n
            invariant
                pos <= k <= n,
                n == data@.len(),
                out@ == out0 + data@.subrange(pos as int, k as int),
            decreases n - k,
        {
            out.push(data[k]);
            assert(data@.subrange(pos as int, k + 1) =~= data@.subrange(pos as int, k as int).push(
                data@[k as int],
            ));
            k = k + 1;
        }
        self.until_meta = self.until_meta - (n - pos);
        out
    }
}

/// Milliseconds a listener's task waits before looking at the buffer again.
pub const LISTENER_POLL_MS: u64 = 100;

/// Milliseconds without data after which a listener is disconnected.
pub const LISTENER_IDLE_TIMEOUT_MS: u64 = 30000;

#[derive(Debug, Clone, Copy, PartialEq, Eq, Structural)]
pub enum ListenerEvent {
    /// The buffer gave bytes.
    Data,
    /// The buffer was empty.
    NoData,
    /// The listener's connection refused bytes: it has disconnected.
    SendFailed,
}

#[derive(Debug, Clone, Copy, PartialEq, Eq, Structural)]
pub enum ListenerAction {
    /// Send the bytes and restart the idle clock.
    Forward,
    /// Wait `LISTENER_POLL_MS` and look again.
    Sleep,
    /// Close the connection.
    Close,
}

pub open spec fn listener_rule(idle_ms: u64, event: ListenerEvent) -> ListenerAction {
    match event {
        ListenerEvent::Data => ListenerAction::Forward,
        ListenerEvent::SendFailed => ListenerAction::Close,
        ListenerEvent::NoData => if idle_ms > LISTENER_IDLE_TIMEOUT_MS {
            ListenerAction::Close
        } else {
            ListenerAction::Sleep
        },
    }
}

/// One decision of a listener's task, `idle_ms` after the last bytes it sent.
pub fn listener_step(idle_ms: u64, event: ListenerEvent) -> (r: ListenerAction)
    ensures
        r == listener_rule(idle_ms, event),
{
    match event {
        ListenerEvent::Data => ListenerAction::Forward,
        ListenerEvent::SendFailed => ListenerAction::Close,
        ListenerEvent::NoData => {
            if idle_ms > LISTENER_IDLE_TIMEOUT_MS {
                ListenerAction::Close
            } else {
                ListenerAction::Sleep
            }
        },
    }
}

/// `http://<address>:<port>/<stream>`, the address a listener tunes to.
pub fn stream_url(bind_address: &str, port: u16, stream: &str) -> (r: String)
    ensures
        r@ == "http://"@ + bind_address@ + ":"@ + decimal(port as nat) + "/"@ + stream@,
{
    let mut s = String::from_str("http://");
    s.append(bind_address);
    s.append(":");
    s.append(fmt_decimal(port as u64).as_str());
    s.append("/");
    s.append(stream);
    s
}

} // verus!
