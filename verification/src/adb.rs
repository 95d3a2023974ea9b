//! The device-debug bridge tool: the arguments of its commands, and what
//! its output says.
//!
//! Running the tool is left to the caller. This module computes what to
//! run it with and reads what it printed.

use vstd::prelude::*;
use vstd::string::*;
use crate::device::{clock_seconds, ConnectedDevice, ConnectionType, DeviceStatus, DeviceView};
use crate::text::{decimal, format_decimal, opt_text, str_eq, texts};

verus! {

/// The address `tcp:<port>` of a port.
pub open spec fn tcp_address(port: u16) -> Seq<char> {
    "tcp:"@ + decimal(port as nat)
}

fn tcp(port: u16) -> (s: String)
    ensures
        s@ == tcp_address(port),
{
    let mut s = String::from_str("tcp:");
    let digits = format_decimal(port as u64);
    s.append(digits.as_str());
    s
}

/// The arguments that list the attached devices.
pub fn list_devices_args() -> (args: Vec<String>)
    ensures
        texts(args@) == seq!["devices"@, "-l"@],
{
    let mut args: Vec<String> = Vec::new();
    args.push(String::from_str("devices"));
    args.push(String::from_str("-l"));
    assert(texts(args@) =~= seq!["devices"@, "-l"@]);
    args
}

fn command(device_id: &str, verb: &str, first: String, second: String) -> (args: Vec<String>)
    ensures
        texts(args@) == seq!["-s"@, device_id@, verb@, first@, second@],
{
    let mut args: Vec<String> = Vec::new();
    args.push(String::from_str("-s"));
    args.push(device_id.to_owned());
    args.push(verb.to_owned());
    args.push(first);
    args.push(second);
    assert(texts(args@) =~= seq!["-s"@, device_id@, verb@, first@, second@]);
    args
}

/// The arguments that read the property `prop` of a device.
pub fn get_property_args(device_id: &str, prop: &str) -> (args: Vec<String>)
    ensures
        texts(args@) == seq!["-s"@, device_id@, "shell"@, "getprop"@, prop@],
{
    command(device_id, "shell", String::from_str("getprop"), prop.to_owned())
}

/// The arguments that forward the local port to the remote port of a
/// device.
pub fn forward_args(device_id: &str, local_port: u16, remote_port: u16) -> (args: Vec<String>)
    ensures
        texts(args@) == seq![
            "-s"@,
            device_id@,
            "forward"@,
            tcp_address(local_port),
            tcp_address(remote_port),
        ],
{
    command(device_id, "forward", tcp(local_port), tcp(remote_port))
}

/// The arguments that remove the forwarding of a local port.
pub fn remove_forward_args(device_id: &str, local_port: u16) -> (args: Vec<String>)
    ensures
        texts(args@) == seq![
            "-s"@,
            device_id@,
            "forward"@,
            "--remove"@,
            tcp_address(local_port),
        ],
{
    command(device_id, "forward", String::from_str("--remove"), tcp(local_port))
}

/// The arguments that copy a local file to a device.
pub fn push_args(device_id: &str, local_path: &str, remote_path: &str) -> (args: Vec<String>)
    ensures
        texts(args@) == seq!["-s"@, device_id@, "push"@, local_path@, remote_path@],
{
    command(device_id, "push", local_path.to_owned(), remote_path.to_owned())
}

/// The arguments that copy a file of a device to a local path.
pub fn pull_args(device_id: &str, remote_path: &str, local_path: &str) -> (args: Vec<String>)
    ensures
        texts(args@) == seq!["-s"@, device_id@, "pull"@, remote_path@, local_path@],
{
    command(device_id, "pull", remote_path.to_owned(), local_path.to_owned())
}

/// The white space of Unicode, by which the tool's output is split into
/// words.
pub open spec fn is_space(c: char) -> bool {
    let u = c as u32;
    ||| 0x09 <= u <= 0x0D
    ||| u == 0x20
    ||| u == 0x85
    ||| u == 0xA0
    ||| u == 0x1680
    ||| 0x2000 <= u <= 0x200A
    ||| u == 0x2028
    ||| u == 0x2029
    ||| u == 0x202F
    ||| u == 0x205F
    ||| u == 0x3000
}

/// The lines of `s` that are still to come when the line `current` has
/// been read so far.
pub open spec fn lines_from(s: Seq<char>, current: Seq<char>) -> Seq<Seq<char>>
    decreases s.len(),
{
    if s.len() == 0 {
        seq![current]
    } else if s[0] == '\n' {
        seq![current] + lines_from(s.skip(1), Seq::empty())
    } else {
        lines_from(s.skip(1), current.push(s[0]))
    }
}

/// The lines of `s`: what stands between its line feeds.
pub open spec fn lines(s: Seq<char>) -> Seq<Seq<char>> {
    lines_from(s, Seq::empty())
}

/// The word `current`, if it is one.
pub open spec fn word_if_any(current: Seq<char>) -> Seq<Seq<char>> {
    if current.len() > 0 {
        seq![current]
    } else {
        Seq::empty()
    }
}

/// The words of `s` that are still to come when the word `current` has
/// been read so far.
pub open spec fn words_from(s: Seq<char>, current: Seq<char>) -> Seq<Seq<char>>
    decreases s.len(),
{
    if s.len() == 0 {
        word_if_any(current)
    } else if is_space(s[0]) {
        word_if_any(current) + words_from(s.skip(1), Seq::empty())
    } else {
        words_from(s.skip(1), current.push(s[0]))
    }
}

/// The words of `s`: its longest runs of characters that are no white
/// space.
pub open spec fn words(s: Seq<char>) -> Seq<Seq<char>> {
    words_from(s, Seq::empty())
}

/// The id of the device that a line of the device list names: its first
/// word, where its second word is `device`.
pub open spec fn listed_device(line: Seq<char>) -> Option<Seq<char>> {
    let w = words(line);
    if w.len() >= 2 && w[1] == "device"@ {
        Some(w[0])
    } else {
        None
    }
}

/// The ids of the devices that the lines name, in their order.
pub open spec fn devices_in(lines: Seq<Seq<char>>) -> Seq<Seq<char>>
    decreases lines.len(),
{
    if lines.len() == 0 {
        Seq::empty()
    } else {
        let rest = devices_in(lines.drop_last());
        match listed_device(lines.last()) {
            Some(id) => rest.push(id),
            None => rest,
        }
    }
}

/// The ids of the devices that the device list names. Its first line is a
/// heading.
pub open spec fn listed_devices(output: Seq<char>) -> Seq<Seq<char>> {
    devices_in(lines(output).skip(1))
}

/// `s` without the white space at its two ends.
pub open spec fn trimmed(s: Seq<char>) -> Seq<char>
    decreases s.len(),
{
    if s.len() == 0 {
        s
    } else if is_space(s[0]) {
        trimmed(s.skip(1))
    } else if is_space(s.last()) {
        trimmed(s.drop_last())
    } else {
        s
    }
}

fn space(c: char) -> (r: bool)
    ensures
        r == is_space(c),
{
    let u = c as u32;
    (0x09 <= u && u <= 0x0D) || u == 0x20 || u == 0x85 || u == 0xA0 || u == 0x1680 || (0x2000 <= u
        && u <= 0x200A) || u == 0x2028 || u == 0x2029 || u == 0x202F || u == 0x205F || u == 0x3000
}

fn chars_of(s: &str) -> (v: Vec<char>)
    ensures
        v@ == s@,
{
    let mut v: Vec<char> = Vec::new();
    for c in it: s.chars()
        invariant
            v@ == it.seq().take(it.index() as int),
            it.seq() == s@,
    {
        v.push(c);
    }
    assert(v@ =~= s@);
    v
}

struct Span {
    start: usize,
    end: usize,
}

spec fn span_text(s: Seq<char>, span: Span) -> Seq<char> {
    s.subrange(span.start as int, span.end as int)
}

spec fn spans_text(s: Seq<char>, spans: Seq<Span>) -> Seq<Seq<char>> {
    spans.map_values(|span: Span| span_text(s, span))
}

spec fn spans_within(spans: Seq<Span>, low: int, high: int) -> bool {
    forall|k: int| 0 <= k < spans.len() ==> low <= (#[trigger] spans[k]).start <= spans[k].end <= high
}

fn line_spans(chars: &Vec<char>) -> (spans: Vec<Span>)
    ensures
        spans@.len() >= 1,
        spans_within(spans@, 0, chars@.len() as int),
        spans_text(chars@, spans@) == lines(chars@),
{
    let n = chars.len();
    let mut spans: Vec<Span> = Vec::new();
    let mut start: usize = 0;
    let mut i: usize = 0;
    proof {
        assert(chars@.skip(0) =~= chars@);
        assert(chars@.subrange(0, 0) =~= Seq::<char>::empty());
        assert(spans_text(chars@, spans@) + lines(chars@) =~= lines(chars@));
    }
    while i < n
        invariant
            start <= i <= n,
            n == chars@.len(),
            spans_within(spans@, 0, n as int),
            lines(chars@) == spans_text(chars@, spans@) + lines_from(
                chars@.skip(i as int),
                chars@.subrange(start as int, i as int),
            ),
        decreases n - i,
    {
        let ghost rest = chars@.skip(i as int);
        let ghost current = chars@.subrange(start as int, i as int);
        let ghost done = spans_text(chars@, spans@);
        proof {
            assert(rest.len() > 0 && rest[0] == chars@[i as int]);
            assert(rest.skip(1) =~= chars@.skip(i + 1));
        }
        if chars[i] == '\n' {
            spans.push(Span { start, end: i });
            start = i + 1;
            proof {
                assert(chars@.subrange(i + 1, i + 1) =~= Seq::<char>::empty());
                assert(spans_text(chars@, spans@) =~= done.push(current));
                assert(done.push(current) + lines_from(rest.skip(1), Seq::empty()) =~= done + (
                seq![current] + lines_from(rest.skip(1), Seq::empty())));
            }
        } else {
            proof {
                assert(chars@.subrange(start as int, i + 1) =~= current.push(chars@[i as int]));
            }
        }
        i += 1;
    }
    let ghost current = chars@.subrange(start as int, n as int);
    let ghost done = spans_text(chars@, spans@);
    spans.push(Span { start, end: n });
    proof {
        assert(chars@.skip(n as int).len() == 0);
        assert(spans_text(chars@, spans@) =~= done.push(current));
        assert(done.push(current) =~= done + seq![current]);
    }
    spans
}

fn word_spans(chars: &Vec<char>, line: &Span) -> (spans: Vec<Span>)
    requires
        line.start <= line.end <= chars@.len(),
    ensures
        spans_within(spans@, line.start as int, line.end as int),
        spans_text(chars@, spans@) == words(span_text(chars@, *line)),
{
    let ghost text = span_text(chars@, *line);
    let mut spans: Vec<Span> = Vec::new();
    let mut start: usize = line.start;
    let mut i: usize = line.start;
    proof {
        assert(text.skip(0) =~= text);
        assert(chars@.subrange(start as int, i as int) =~= Seq::<char>::empty());
        assert(spans_text(chars@, spans@) + words(text) =~= words(text));
    }
    while i < line.end
        invariant
            line.start <= start <= i <= line.end <= chars@.len(),
            text == span_text(chars@, *line),
            spans_within(spans@, line.start as int, line.end as int),
            words(text) == spans_text(chars@, spans@) + words_from(
                text.skip(i - line.start),
                chars@.subrange(start as int, i as int),
            ),
        decreases line.end - i,
    {
        let ghost rest = text.skip(i - line.start);
        let ghost current = chars@.subrange(start as int, i as int);
        let ghost done = spans_text(chars@, spans@);
        proof {
            assert(rest.len() > 0 && rest[0] == chars@[i as int]);
            assert(rest.skip(1) =~= text.skip(i + 1 - line.start));
        }
        if space(chars[i]) {
            if start < i {
                spans.push(Span { start, end: i });
                proof {
                    assert(spans_text(chars@, spans@) =~= done.push(current));
                    assert(done.push(current) + words_from(rest.skip(1), Seq::empty()) =~= done
                        + (word_if_any(current) + words_from(rest.skip(1), Seq::empty())));
                }
            } else {
                proof {
                    assert(done + words_from(rest.skip(1), Seq::empty()) =~= done + (word_if_any(
                        current,
                    ) + words_from(rest.skip(1), Seq::empty())));
                }
            }
            start = i + 1;
            proof {
                assert(chars@.subrange(i + 1, i + 1) =~= Seq::<char>::empty());
            }
        } else {
            proof {
                assert(chars@.subrange(start as int, i + 1) =~= current.push(chars@[i as int]));
            }
        }
        i += 1;
    }
    let ghost current = chars@.subrange(start as int, i as int);
    let ghost done = spans_text(chars@, spans@);
    proof {
        assert(text.skip(i - line.start).len() == 0);
    }
    if start < i {
        spans.push(Span { start, end: i });
        proof {
            assert(spans_text(chars@, spans@) =~= done.push(current));
            assert(done.push(current) =~= done + word_if_any(current));
        }
    } else {
        proof {
            assert(done =~= done + word_if_any(current));
        }
    }
    spans
}

/// Reads the list of attached devices that the tool printed: the ids of
/// the devices that it reports in the state `device`, in their order.
pub fn parse_device_list(output: &str) -> (ids: Vec<String>)
    ensures
        texts(ids@) == listed_devices(output@),
{
    let chars = chars_of(output);
    let line_list = line_spans(&chars);
    let ghost all = lines(output@);
    let mut ids: Vec<String> = Vec::new();
    let mut k: usize = 1;
    proof {
        assert(all.skip(1).take(0) =~= Seq::<Seq<char>>::empty());
        assert(texts(ids@) =~= devices_in(all.skip(1).take(0)));
    }
    while k < line_list.len()
        invariant
            1 <= k <= line_list@.len(),
            chars@ == output@,
            all == lines(output@),
            spans_within(line_list@, 0, chars@.len() as int),
            spans_text(chars@, line_list@) == all,
            texts(ids@) == devices_in(all.skip(1).take(k - 1)),
        decreases line_list@.len() - k,
    {
        let line = &line_list[k];
        let found = word_spans(&chars, line);
        let ghost before = texts(ids@);
        proof {
            assert(spans_text(chars@, line_list@)[k as int] == span_text(chars@, *line));
            assert(all[k as int] == span_text(chars@, *line));
            let upto = all.skip(1).take(k as int);
            assert(upto.drop_last() =~= all.skip(1).take(k - 1));
            assert(upto.last() == all[k as int]);
            assert(spans_text(chars@, found@).len() == found@.len());
        }
        if found.len() >= 2 {
            let first = &found[0];
            let second = &found[1];
            proof {
                assert(spans_text(chars@, found@)[0] == span_text(chars@, *first));
                assert(spans_text(chars@, found@)[1] == span_text(chars@, *second));
            }
            if str_eq(output.substring_char(second.start, second.end), "device") {
                ids.push(output.substring_char(first.start, first.end).to_owned());
                proof {
                    assert(texts(ids@) =~= before.push(span_text(chars@, *first)));
                }
            }
        }
        k += 1;
    }
    proof {
        assert(all.skip(1).take(k - 1) =~= all.skip(1));
    }
    ids
}

/// The value of a property as the tool printed it: the output without the
/// white space around it.
pub fn property_value(raw: &str) -> (value: String)
    ensures
        value@ == trimmed(raw@),
{
    let chars = chars_of(raw);
    let mut start: usize = 0;
    let mut end: usize = chars.len();
    proof {
        assert(chars@.subrange(0, chars@.len() as int) =~= chars@);
    }
    while start < end && space(chars[start])
        invariant
            start <= end == chars@.len(),
            trimmed(chars@) == trimmed(chars@.subrange(start as int, end as int)),
        decreases end - start,
    {
        proof {
            let s = chars@.subrange(start as int, end as int);
            assert(s.skip(1) =~= chars@.subrange(start + 1, end as int));
        }
        start += 1;
    }
    while start < end && space(chars[end - 1])
        invariant
            start <= end <= chars@.len(),
            start < end ==> !is_space(chars@[start as int]),
            trimmed(chars@) == trimmed(chars@.subrange(start as int, end as int)),
        decreases end - start,
    {
        proof {
            let s = chars@.subrange(start as int, end as int);
            assert(s.drop_last() =~= chars@.subrange(start as int, end - 1));
        }
        end -= 1;
    }
    raw.substring_char(start, end).to_owned()
}

/// The value of a property that could be read, or `Unknown`.
pub open spec fn or_unknown(value: Option<Seq<char>>) -> Seq<char> {
    match value {
        Some(v) => v,
        None => "Unknown"@,
    }
}

/// The record of a device that the tool lists, made from its id and from
/// the properties that could be read of it. A device that was just found
/// is attached by USB and is pairing: it has not shaken hands yet.
pub open spec fn discovered(
    id: Seq<char>,
    brand: Option<Seq<char>>,
    model: Option<Seq<char>>,
    soc: Option<Seq<char>>,
    now: u64,
) -> DeviceView {
    DeviceView {
        id,
        name: or_unknown(brand) + " "@ + or_unknown(model),
        model: or_unknown(model),
        soc_name: or_unknown(soc),
        connection_type: ConnectionType::Usb,
        status: DeviceStatus::Pairing,
        ip_address: None,
        port: None,
        last_seen: now,
    }
}

fn known_or_unknown(value: Option<String>) -> (r: String)
    ensures
        r@ == or_unknown(opt_text(value)),
{
    match value {
        Some(v) => v,
        None => String::from_str("Unknown"),
    }
}

/// Makes the record of a device that the tool lists.
pub fn discovered_device(
    id: String,
    brand: Option<String>,
    model: Option<String>,
    soc: Option<String>,
    now: u64,
) -> (device: ConnectedDevice)
    ensures
        device@ == discovered(id@, opt_text(brand), opt_text(model), opt_text(soc), now),
{
    let brand = known_or_unknown(brand);
    let model = known_or_unknown(model);
    let soc_name = known_or_unknown(soc);
    let mut name = brand;
    name.append(" ");
    name.append(model.as_str());
    ConnectedDevice {
        id,
        name,
        model,
        soc_name,
        connection_type: ConnectionType::Usb,
        status: DeviceStatus::Pairing,
        ip_address: None,
        port: None,
        last_seen: now,
    }
}

/// Makes the record of a device that the tool lists, seen at the time of
/// the call.
pub fn discovered_device_now(
    id: String,
    brand: Option<String>,
    model: Option<String>,
    soc: Option<String>,
) -> (device: ConnectedDevice)
    ensures
        exists|now: u64|
            device@ == #[trigger] discovered(
                id@,
                opt_text(brand),
                opt_text(model),
                opt_text(soc),
                now,
            ),
{
    let now = clock_seconds();
    discovered_device(id, brand, model, soc, now)
}

} // verus!
