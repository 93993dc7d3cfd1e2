//! USB devices as `lsusb` lists them: line parsing, classification by
//! description keywords, the speed that `lsusb -v` reports.
use vstd::prelude::*;

use crate::order::{is_pair_order, pair_order, pair_views};

use crate::text::{
    chars_of, contains, contains_str, dec, occurs_at, find, find_exec, fold_lower, fold_lower_exec,
    lines, lines_exec, parse_u32, parse_u32_exec, push_all, push_decimal, push_str, slice_of,
    split_on, split_on_exec, split_once, split_once_exec, starts_with, starts_with_str,
    string_of, trim, trim_bounds, trim_end, trim_start, trimmed, views, words, words_exec,
};

verus! {

/// One device line of `lsusb`.
pub struct UsbDevice {
    pub bus: String,
    pub device: String,
    pub id: String,
    pub vendor_id: String,
    pub product_id: String,
    pub description: String,
    pub speed: Option<String>,
}

/// The text held by a `UsbDevice`.
pub struct UsbDeviceView {
    pub bus: Seq<char>,
    pub device: Seq<char>,
    pub id: Seq<char>,
    pub vendor_id: Seq<char>,
    pub product_id: Seq<char>,
    pub description: Seq<char>,
    pub speed: Option<Seq<char>>,
}

impl View for UsbDevice {
    type V = UsbDeviceView;

    open spec fn view(&self) -> UsbDeviceView {
        UsbDeviceView {
            bus: self.bus@,
            device: self.device@,
            id: self.id@,
            vendor_id: self.vendor_id@,
            product_id: self.product_id@,
            description: self.description@,
            speed: match self.speed {
                Some(s) => Some(s@),
                None => None,
            },
        }
    }
}

/// The markers of an `lsusb` line come in the order `Bus `, `Device `,
/// `: ID ` with room for the text between them. A line that has all three
/// markers in another order is one on which slicing between them fails.
pub open spec fn lsusb_markers_in_order(line: Seq<char>) -> bool {
    match (find(line, "Bus "@), find(line, "Device "@), find(line, ": ID "@)) {
        (Some(b), Some(d), Some(i)) => b + 4 <= d && d + 7 <= i,
        _ => true,
    }
}

/// The fields of an `lsusb` line
/// `Bus 001 Device 002: ID 8087:0024 Intel Corp. Integrated Rate Matching Hub`,
/// or `None` when one of the markers is missing.
pub open spec fn lsusb_fields(line: Seq<char>) -> Option<UsbDeviceView> {
    match (find(line, "Bus "@), find(line, "Device "@), find(line, ": ID "@)) {
        (Some(b), Some(d), Some(i)) => {
            let rest = line.skip(i + 5);
            let parts = split_once(rest, ' ');
            let id_str = trim(parts[0]);
            let vid_pid = split_once(id_str, ':');
            Some(
                UsbDeviceView {
                    bus: trim(line.subrange(b + 4, d)),
                    device: trim(split_on(trim(line.subrange(d + 7, i)), ':')[0]),
                    id: id_str,
                    vendor_id: vid_pid[0],
                    product_id: if vid_pid.len() > 1 {
                        vid_pid[1]
                    } else {
                        "????"@
                    },
                    description: if parts.len() > 1 {
                        trim(parts[1])
                    } else {
                        "Unknown"@
                    },
                    speed: None,
                },
            )
        },
        _ => None,
    }
}

/// The ID of a parsed line is its vendor and product IDs joined by the first
/// colon; without a colon the vendor ID is the whole ID and the product ID
/// is `????`.
pub proof fn law_usb_id_parts(line: Seq<char>)
    requires
        lsusb_fields(line) is Some,
    ensures
        ({
            let d = lsusb_fields(line)->0;
            if contains(d.id, seq![':']) {
                d.id == d.vendor_id + seq![':'] + d.product_id
            } else {
                d.vendor_id == d.id && d.product_id == "????"@
            }
        }),
{
    let d = lsusb_fields(line)->0;
    crate::text::lemma_find_is(d.id, seq![':']);
    match find(d.id, seq![':']) {
        Some(i) => {
            assert(d.id.subrange(i, i + 1) == seq![':']);
            assert(d.id =~= d.id.take(i) + seq![':'] + d.id.skip(i + 1)) by {
                assert(d.id[i] == d.id.subrange(i, i + 1)[0]);
            }
        },
        None => {},
    }
}

/// A non-empty string of decimal digits.
pub open spec fn dec_digits(s: Seq<char>) -> bool {
    s.len() > 0 && forall|i: int| 0 <= i < s.len() ==> '0' <= #[trigger] s[i] <= '9'
}

/// A hexadecimal digit.
pub open spec fn is_hex_char(c: char) -> bool {
    ('0' <= c <= '9') || ('a' <= c <= 'f') || ('A' <= c <= 'F')
}

/// A non-empty string of hexadecimal digits.
pub open spec fn hex_digits(s: Seq<char>) -> bool {
    s.len() > 0 && forall|i: int| 0 <= i < s.len() ==> is_hex_char(#[trigger] s[i])
}

/// The `lsusb` line `Bus b Device d: ID v:p desc`.
pub open spec fn lsusb_line_text(
    b: Seq<char>,
    d: Seq<char>,
    v: Seq<char>,
    p: Seq<char>,
    desc: Seq<char>,
) -> Seq<char> {
    "Bus "@ + b + " Device "@ + d + ": ID "@ + v + ":"@ + p + " "@ + desc
}

proof fn lemma_lsusb_find_markers(b: Seq<char>, d: Seq<char>, rest: Seq<char>)
    requires
        dec_digits(b),
        dec_digits(d),
    ensures
        find("Bus "@ + b + " Device "@ + d + ": ID "@ + rest, "Bus "@) == Some(0int),
        find("Bus "@ + b + " Device "@ + d + ": ID "@ + rest, "Device "@) == Some(
            5 + b.len() as int,
        ),
        find("Bus "@ + b + " Device "@ + d + ": ID "@ + rest, ": ID "@) == Some(
            12 + b.len() as int + d.len() as int,
        ),
{
    reveal_strlit("Bus ");
    reveal_strlit(" Device ");
    reveal_strlit("Device ");
    reveal_strlit(": ID ");
    let l = "Bus "@ + b + " Device "@ + d + ": ID "@ + rest;
    let nb = b.len() as int;
    let nd = d.len() as int;
    assert(l.subrange(0, 4) =~= "Bus "@);
    crate::text::lemma_find_at(l, "Bus "@, 0);
    assert(l.subrange(5 + nb, 12 + nb) =~= "Device "@);
    assert forall|j: int| 0 <= j < 5 + nb implies !occurs_at(l, "Device "@, j) by {
        if occurs_at(l, "Device "@, j) {
            assert(l.subrange(j, j + 7)[0] == 'D');
            assert(l[j] == 'D');
            if j >= 4 && j < 4 + nb {
                assert(b[j - 4] == l[j]);
            }
        }
    }
    crate::text::lemma_find_at(l, "Device "@, 5 + nb);
    assert(l.subrange(12 + nb + nd, 17 + nb + nd) =~= ": ID "@);
    assert forall|j: int| 0 <= j < 12 + nb + nd implies !occurs_at(l, ": ID "@, j) by {
        if occurs_at(l, ": ID "@, j) {
            assert(l.subrange(j, j + 5)[0] == ':');
            assert(l[j] == ':');
            if j >= 4 && j < 4 + nb {
                assert(b[j - 4] == l[j]);
            }
            if j >= 12 + nb && j < 12 + nb + nd {
                assert(d[j - 12 - nb] == l[j]);
            }
        }
    }
    crate::text::lemma_find_at(l, ": ID "@, 12 + nb + nd);
}

proof fn lemma_lsusb_rest(v: Seq<char>, p: Seq<char>, desc: Seq<char>)
    requires
        hex_digits(v),
        hex_digits(p),
    ensures
        split_once(v + ":"@ + p + " "@ + desc, ' ') == seq![v + ":"@ + p, desc],
        trim(v + ":"@ + p) == v + ":"@ + p,
        split_once(v + ":"@ + p, ':') == seq![v, p],
{
    reveal_strlit(":");
    reveal_strlit(" ");
    let id = v + ":"@ + p;
    let r = id + " "@ + desc;
    let k = id.len() as int;
    assert(r.subrange(k, k + 1) =~= seq![' ']);
    assert forall|j: int| 0 <= j < k implies !occurs_at(r, seq![' '], j) by {
        if occurs_at(r, seq![' '], j) {
            assert(r.subrange(j, j + 1)[0] == ' ');
            assert(r[j] == ' ');
            if j < v.len() {
                assert(v[j] == r[j]);
            } else if j > v.len() {
                assert(p[j - v.len() - 1] == r[j]);
            }
        }
    }
    crate::text::lemma_find_at(r, seq![' '], k);
    assert(r.take(k) =~= id);
    assert(r.skip(k + 1) =~= desc);
    assert(id[0] == v[0]);
    assert(id.last() == p[p.len() - 1]);
    crate::text::lemma_trim_plain(id);
    let nv = v.len() as int;
    assert(id.subrange(nv, nv + 1) =~= seq![':']);
    assert forall|j: int| 0 <= j < nv implies !occurs_at(id, seq![':'], j) by {
        if occurs_at(id, seq![':'], j) {
            assert(id.subrange(j, j + 1)[0] == ':');
            assert(v[j] == id[j]);
        }
    }
    crate::text::lemma_find_at(id, seq![':'], nv);
    assert(id.take(nv) =~= v);
    assert(id.skip(nv + 1) =~= p);
}

/// Parsing a well-formed line `Bus b Device d: ID v:p desc`, with decimal
/// bus and device numbers, hexadecimal vendor and product IDs and a
/// description without surrounding whitespace, gives those parts back.
pub proof fn law_lsusb_round_trip(
    b: Seq<char>,
    d: Seq<char>,
    v: Seq<char>,
    p: Seq<char>,
    desc: Seq<char>,
)
    requires
        dec_digits(b),
        dec_digits(d),
        hex_digits(v),
        hex_digits(p),
        trim(desc) == desc,
    ensures
        lsusb_markers_in_order(lsusb_line_text(b, d, v, p, desc)),
        lsusb_fields(lsusb_line_text(b, d, v, p, desc)) == Some(
            UsbDeviceView {
                bus: b,
                device: d,
                id: v + ":"@ + p,
                vendor_id: v,
                product_id: p,
                description: desc,
                speed: None,
            },
        ),
{
    reveal_strlit("Bus ");
    reveal_strlit(" Device ");
    reveal_strlit(": ID ");
    reveal_strlit(":");
    reveal_strlit(" ");
    let rest = v + ":"@ + p + " "@ + desc;
    let l = lsusb_line_text(b, d, v, p, desc);
    assert(l =~= "Bus "@ + b + " Device "@ + d + ": ID "@ + rest);
    lemma_lsusb_find_markers(b, d, rest);
    lemma_lsusb_rest(v, p, desc);
    let nb = b.len() as int;
    let nd = d.len() as int;
    assert(l.skip(17 + nb + nd) =~= rest);
    // the bus number: `b` and the space after it
    let bs = l.subrange(4, 5 + nb);
    assert(bs =~= b.push(' '));
    assert(bs.drop_last() =~= b);
    assert(trim_start(bs) == bs) by {
        assert(bs[0] == b[0]);
    }
    assert(trim_end(bs) == trim_end(b)) by {
        assert(bs.last() == ' ');
    }
    crate::text::lemma_trim_plain(b);
    // the device number
    let ds = l.subrange(12 + nb, 12 + nb + nd);
    assert(ds =~= d);
    crate::text::lemma_trim_plain(d);
    assert(!d.contains(':')) by {
        if d.contains(':') {
            let i = choose|i: int| 0 <= i < d.len() && d[i] == ':';
            assert('0' <= d[i] <= '9');
        }
    }
    crate::text::lemma_split_on_absent(d, ':');
}

/// Whether `parse_lsusb_line` can slice `line` (see `lsusb_markers_in_order`).
pub fn lsusb_line_in_order(line: &str) -> (b: bool)
    ensures
        b == lsusb_markers_in_order(line@),
{
    let v = chars_of(line);
    let b = find_exec(&v, &chars_of("Bus "));
    let d = find_exec(&v, &chars_of("Device "));
    let i = find_exec(&v, &chars_of(": ID "));
    match (b, d, i) {
        (Some(b), Some(d), Some(i)) => b <= d && d - b >= 4 && d <= i && i - d >= 7,
        _ => true,
    }
}

/// Parses one line of `lsusb` output into its fields.
pub fn parse_lsusb_line(line: &str) -> (r: Option<UsbDevice>)
    requires
        lsusb_markers_in_order(line@),
    ensures
        r matches Some(dev) ==> lsusb_fields(line@) == Some(dev@),
        r is None ==> lsusb_fields(line@) is None,
{
    let v = chars_of(line);
    let b = match find_exec(&v, &chars_of("Bus ")) {
        Some(p) => p,
        None => return None,
    };
    let d = match find_exec(&v, &chars_of("Device ")) {
        Some(p) => p,
        None => return None,
    };
    let i = match find_exec(&v, &chars_of(": ID ")) {
        Some(p) => p,
        None => return None,
    };
    proof {
        reveal_strlit("Bus ");
        reveal_strlit("Device ");
        reveal_strlit(": ID ");
        crate::text::lemma_find_is(v@, "Bus "@);
        crate::text::lemma_find_is(v@, "Device "@);
        crate::text::lemma_find_is(v@, ": ID "@);
    }
    let (b0, b1) = trim_bounds(&v, b + 4, d);
    let bus = slice_of(&v, b0, b1);
    let (d0, d1) = trim_bounds(&v, d + 7, i);
    let dev_field = slice_of(&v, d0, d1);
    let dev_parts = split_on_exec(&dev_field, ':');
    proof {
        crate::text::lemma_split_on_len(dev_field@, ':');
        assert(views(dev_parts@)[0] == dev_parts[0]@);
    }
    let device = trimmed(&dev_parts[0]);
    let rest = slice_of(&v, i + 5, v.len());
    proof {
        assert(rest@ == v@.skip(i + 5));
    }
    let parts = split_once_exec(&rest, ' ');
    proof {
        assert(views(parts@)[0] == parts[0]@);
    }
    let id_str = trimmed(&parts[0]);
    let description = if parts.len() > 1 {
        proof {
            assert(views(parts@)[1] == parts[1]@);
        }
        trimmed(&parts[1])
    } else {
        chars_of("Unknown")
    };
    let vid_pid = split_once_exec(&id_str, ':');
    proof {
        assert(views(vid_pid@)[0] == vid_pid[0]@);
    }
    let vendor_id = slice_of(&vid_pid[0], 0, vid_pid[0].len());
    let product_id = if vid_pid.len() > 1 {
        proof {
            assert(views(vid_pid@)[1] == vid_pid[1]@);
        }
        slice_of(&vid_pid[1], 0, vid_pid[1].len())
    } else {
        chars_of("????")
    };
    proof {
        assert(vendor_id@ =~= vid_pid[0]@);
        assert(vid_pid.len() > 1 ==> product_id@ =~= vid_pid[1]@);
    }
    let dev = UsbDevice {
        bus: string_of(&bus),
        device: string_of(&device),
        id: string_of(&id_str),
        vendor_id: string_of(&vendor_id),
        product_id: string_of(&product_id),
        description: string_of(&description),
        speed: None,
    };
    Some(dev)
}

/// Device classes, tested in this order; the first that matches wins.
#[derive(Clone, Copy, PartialEq, Eq, Structural, Debug)]
pub enum DeviceKind {
    InternalHub,
    Hub,
    Keyboard,
    Mouse,
    Camera,
    Bluetooth,
    Audio,
    Storage,
    Network,
    Printer,
    Serial,
    Other,
}

impl DeviceKind {
    /// The label printed for the class.
    pub open spec fn label_text(self) -> Seq<char> {
        match self {
            DeviceKind::InternalHub => "🔧 Internal Hub"@,
            DeviceKind::Hub => "🔌 Hub"@,
            DeviceKind::Keyboard => "⌨️  Keyboard"@,
            DeviceKind::Mouse => "🖱️  Mouse/Touchpad"@,
            DeviceKind::Camera => "📷 Camera"@,
            DeviceKind::Bluetooth => "📶 Bluetooth"@,
            DeviceKind::Audio => "🎧 Audio"@,
            DeviceKind::Storage => "💾 Storage"@,
            DeviceKind::Network => "🌐 Network"@,
            DeviceKind::Printer => "🖨️  Printer"@,
            DeviceKind::Serial => "🔗 Serial/UART"@,
            DeviceKind::Other => "📦 Device"@,
        }
    }

    /// The label printed for the class.
    pub fn label(&self) -> (s: &'static str)
        ensures
            s@ == self.label_text(),
    {
        match self {
            DeviceKind::InternalHub => "🔧 Internal Hub",
            DeviceKind::Hub => "🔌 Hub",
            DeviceKind::Keyboard => "⌨️  Keyboard",
            DeviceKind::Mouse => "🖱️  Mouse/Touchpad",
            DeviceKind::Camera => "📷 Camera",
            DeviceKind::Bluetooth => "📶 Bluetooth",
            DeviceKind::Audio => "🎧 Audio",
            DeviceKind::Storage => "💾 Storage",
            DeviceKind::Network => "🌐 Network",
            DeviceKind::Printer => "🖨️  Printer",
            DeviceKind::Serial => "🔗 Serial/UART",
            DeviceKind::Other => "📦 Device",
        }
    }
}

/// The class of a device by the keywords of its (lowercased) description.
pub open spec fn device_kind(desc: Seq<char>) -> DeviceKind {
    let d = fold_lower(desc);
    if contains(d, "intel"@) && (contains(d, "integrated"@) || contains(d, "rate matching"@)) {
        DeviceKind::InternalHub
    } else if contains(d, "hub"@) {
        DeviceKind::Hub
    } else if contains(d, "keyboard"@) {
        DeviceKind::Keyboard
    } else if contains(d, "mouse"@) || contains(d, "touchpad"@) {
        DeviceKind::Mouse
    } else if contains(d, "camera"@) || contains(d, "webcam"@) {
        DeviceKind::Camera
    } else if contains(d, "bluetooth"@) {
        DeviceKind::Bluetooth
    } else if contains(d, "audio"@) || contains(d, "headset"@) || contains(d, "sound"@) {
        DeviceKind::Audio
    } else if contains(d, "storage"@) || contains(d, "flash"@) || contains(d, "disk"@)
        || contains(d, "drive"@) {
        DeviceKind::Storage
    } else if contains(d, "network"@) || contains(d, "ethernet"@) || contains(d, "wifi"@) {
        DeviceKind::Network
    } else if contains(d, "printer"@) {
        DeviceKind::Printer
    } else if contains(d, "serial"@) || contains(d, "uart"@) || contains(d, "ftdi"@)
        || contains(d, "cp210"@) {
        DeviceKind::Serial
    } else {
        DeviceKind::Other
    }
}

/// The class of a device by the keywords of its description.
pub fn device_kind_of(desc: &str) -> (k: DeviceKind)
    ensures
        k == device_kind(desc@),
{
    let d = fold_lower_exec(&chars_of(desc));
    if contains_str(&d, "intel") && (contains_str(&d, "integrated") || contains_str(
        &d,
        "rate matching",
    )) {
        DeviceKind::InternalHub
    } else if contains_str(&d, "hub") {
        DeviceKind::Hub
    } else if contains_str(&d, "keyboard") {
        DeviceKind::Keyboard
    } else if contains_str(&d, "mouse") || contains_str(&d, "touchpad") {
        DeviceKind::Mouse
    } else if contains_str(&d, "camera") || contains_str(&d, "webcam") {
        DeviceKind::Camera
    } else if contains_str(&d, "bluetooth") {
        DeviceKind::Bluetooth
    } else if contains_str(&d, "audio") || contains_str(&d, "headset") || contains_str(
        &d,
        "sound",
    ) {
        DeviceKind::Audio
    } else if contains_str(&d, "storage") || contains_str(&d, "flash") || contains_str(
        &d,
        "disk",
    ) || contains_str(&d, "drive") {
        DeviceKind::Storage
    } else if contains_str(&d, "network") || contains_str(&d, "ethernet") || contains_str(
        &d,
        "wifi",
    ) {
        DeviceKind::Network
    } else if contains_str(&d, "printer") {
        DeviceKind::Printer
    } else if contains_str(&d, "serial") || contains_str(&d, "uart") || contains_str(
        &d,
        "ftdi",
    ) || contains_str(&d, "cp210") {
        DeviceKind::Serial
    } else {
        DeviceKind::Other
    }
}

/// Whether a lowercased description names class `k` by one of its keywords
/// (an internal hub is an Intel integrated or rate-matching hub; every
/// description is at least a device).
pub open spec fn class_matches(d: Seq<char>, k: DeviceKind) -> bool {
    match k {
        DeviceKind::InternalHub => contains(d, "intel"@) && (contains(d, "integrated"@) || contains(
            d,
            "rate matching"@,
        )),
        DeviceKind::Hub => contains(d, "hub"@),
        DeviceKind::Keyboard => contains(d, "keyboard"@),
        DeviceKind::Mouse => contains(d, "mouse"@) || contains(d, "touchpad"@),
        DeviceKind::Camera => contains(d, "camera"@) || contains(d, "webcam"@),
        DeviceKind::Bluetooth => contains(d, "bluetooth"@),
        DeviceKind::Audio => contains(d, "audio"@) || contains(d, "headset"@) || contains(d, "sound"@),
        DeviceKind::Storage => contains(d, "storage"@) || contains(d, "flash"@) || contains(d, "disk"@)
            || contains(d, "drive"@),
        DeviceKind::Network => contains(d, "network"@) || contains(d, "ethernet"@) || contains(
            d,
            "wifi"@,
        ),
        DeviceKind::Printer => contains(d, "printer"@),
        DeviceKind::Serial => contains(d, "serial"@) || contains(d, "uart"@) || contains(d, "ftdi"@)
            || contains(d, "cp210"@),
        DeviceKind::Other => true,
    }
}

/// A device falls in the first class, in test order, whose keywords its
/// lowercased description contains: class `k` exactly when `k` matches and
/// no class tested before `k` does.
pub proof fn law_device_class_first_match(desc: Seq<char>, k: DeviceKind)
    ensures
        device_kind(desc) == k <==> (class_matches(fold_lower(desc), k) && forall|j: DeviceKind|
            kind_rank(j) < kind_rank(k) ==> !class_matches(fold_lower(desc), j)),
{
    let d = fold_lower(desc);
    if device_kind(desc) == k {
        assert forall|j: DeviceKind| kind_rank(j) < kind_rank(k) implies !class_matches(d, j) by {
            match j {
                DeviceKind::InternalHub => {},
                DeviceKind::Hub => {},
                DeviceKind::Keyboard => {},
                DeviceKind::Mouse => {},
                DeviceKind::Camera => {},
                DeviceKind::Bluetooth => {},
                DeviceKind::Audio => {},
                DeviceKind::Storage => {},
                DeviceKind::Network => {},
                DeviceKind::Printer => {},
                DeviceKind::Serial => {},
                DeviceKind::Other => {},
            }
        }
    } else if class_matches(d, k) {
        let c = device_kind(desc);
        assert(class_matches(d, c));
        assert(kind_rank(c) < kind_rank(k) || kind_rank(k) < kind_rank(c) || c == k) by {
            lemma_rank_injective(c, k);
        }
        if kind_rank(k) < kind_rank(c) {
            assert(forall|j: DeviceKind| kind_rank(j) < kind_rank(c) ==> !class_matches(d, j)) by {
                assert forall|j: DeviceKind| kind_rank(j) < kind_rank(c) implies !class_matches(d, j) by {
                    match j {
                        DeviceKind::InternalHub => {},
                        DeviceKind::Hub => {},
                        DeviceKind::Keyboard => {},
                        DeviceKind::Mouse => {},
                        DeviceKind::Camera => {},
                        DeviceKind::Bluetooth => {},
                        DeviceKind::Audio => {},
                        DeviceKind::Storage => {},
                        DeviceKind::Network => {},
                        DeviceKind::Printer => {},
                        DeviceKind::Serial => {},
                        DeviceKind::Other => {},
                    }
                }
            }
        }
    }
}

/// The USB speed names: each `bcdUSB` version prefix has its own name.
pub proof fn law_usb_speed_names(v: Seq<char>)
    ensures
        starts_with(v, "3.2"@) ==> usb_speed_label(v) == "SuperSpeed+ (20 Gbps)"@,
        starts_with(v, "3.1"@) ==> usb_speed_label(v) == "SuperSpeed+ (10 Gbps)"@,
        starts_with(v, "3.0"@) ==> usb_speed_label(v) == "SuperSpeed (5 Gbps)"@,
        starts_with(v, "2.0"@) ==> usb_speed_label(v) == "Hi-Speed (480 Mbps)"@,
        starts_with(v, "1.1"@) ==> usb_speed_label(v) == "Full-Speed (12 Mbps)"@,
        starts_with(v, "1.0"@) ==> usb_speed_label(v) == "Low-Speed (1.5 Mbps)"@,
        !starts_with(v, "3.2"@) && !starts_with(v, "3.1"@) && !starts_with(v, "3.0"@)
            && !starts_with(v, "2.0"@) && !starts_with(v, "1.1"@) && !starts_with(v, "1.0"@)
            ==> usb_speed_label(v) == "Unknown"@,
{
    reveal_strlit("3.2");
    reveal_strlit("3.1");
    reveal_strlit("3.0");
    reveal_strlit("2.0");
    reveal_strlit("1.1");
    reveal_strlit("1.0");
    if v.len() >= 3 {
        assert(v.take(3)[0] == v[0] && v.take(3)[1] == v[1] && v.take(3)[2] == v[2]);
    }
}

/// The label of the class of a device, by its description.
pub fn classify_device(desc: &str) -> (s: &'static str)
    ensures
        s@ == device_kind(desc@).label_text(),
{
    device_kind_of(desc).label()
}

/// The USB speed named by a `bcdUSB` version.
pub open spec fn usb_speed_label(v: Seq<char>) -> Seq<char> {
    if starts_with(v, "3.2"@) {
        "SuperSpeed+ (20 Gbps)"@
    } else if starts_with(v, "3.1"@) {
        "SuperSpeed+ (10 Gbps)"@
    } else if starts_with(v, "3.0"@) {
        "SuperSpeed (5 Gbps)"@
    } else if starts_with(v, "2.0"@) {
        "Hi-Speed (480 Mbps)"@
    } else if starts_with(v, "1.1"@) {
        "Full-Speed (12 Mbps)"@
    } else if starts_with(v, "1.0"@) {
        "Low-Speed (1.5 Mbps)"@
    } else {
        "Unknown"@
    }
}

/// The speed reported by the first `bcdUSB` line among `ls`, if that line
/// has a version after the keyword.
pub open spec fn speed_from_lines(ls: Seq<Seq<char>>) -> Option<Seq<char>>
    decreases ls.len(),
{
    if ls.len() == 0 {
        None
    } else {
        let l = trim(ls[0]);
        if starts_with(l, "bcdUSB"@) {
            let w = words(l);
            if w.len() < 2 {
                None
            } else {
                let val = trim(w[1]);
                Some("USB "@ + val + " — "@ + usb_speed_label(val))
            }
        } else {
            speed_from_lines(ls.drop_first())
        }
    }
}

fn push_speed_label(out: &mut Vec<char>, val: &Vec<char>)
    ensures
        final(out)@ == old(out)@ + usb_speed_label(val@),
{
    if starts_with_str(val, "3.2") {
        push_str(out, "SuperSpeed+ (20 Gbps)");
    } else if starts_with_str(val, "3.1") {
        push_str(out, "SuperSpeed+ (10 Gbps)");
    } else if starts_with_str(val, "3.0") {
        push_str(out, "SuperSpeed (5 Gbps)");
    } else if starts_with_str(val, "2.0") {
        push_str(out, "Hi-Speed (480 Mbps)");
    } else if starts_with_str(val, "1.1") {
        push_str(out, "Full-Speed (12 Mbps)");
    } else if starts_with_str(val, "1.0") {
        push_str(out, "Low-Speed (1.5 Mbps)");
    } else {
        push_str(out, "Unknown");
    }
}

/// The speed line `USB 2.00 — Hi-Speed (480 Mbps)` from the output of
/// `lsusb -s BUS:DEV -v`.
pub fn usb_speed_from_verbose(stdout: &str) -> (r: Option<String>)
    ensures
        r matches Some(s) ==> speed_from_lines(lines(stdout@)) == Some(s@),
        r is None ==> speed_from_lines(lines(stdout@)) is None,
{
    let ls = lines_exec(&chars_of(stdout));
    let ghost lv = views(ls@);
    let mut i: usize = 0;
    proof {
        assert(lv.skip(0) == lv);
    }
    while i < ls.len()
        invariant
            i <= ls.len(),
            lv == views(ls@),
            lv == lines(stdout@),
            speed_from_lines(lv) == speed_from_lines(lv.skip(i as int)),
        decreases ls.len() - i,
    {
        let ghost rest = lv.skip(i as int);
        proof {
            assert(rest[0] == ls[i as int]@);
            assert(rest.drop_first() == lv.skip(i + 1));
        }
        let l = trimmed(&ls[i]);
        if starts_with_str(&l, "bcdUSB") {
            let w = words_exec(&l);
            if w.len() < 2 {
                proof {
                    assert(speed_from_lines(rest) is None);
                }
                return None;
            }
            proof {
                assert(views(w@)[1] == w[1]@);
            }
            let val = trimmed(&w[1]);
            let mut out: Vec<char> = Vec::new();
            push_str(&mut out, "USB ");
            push_all(&mut out, &val);
            push_str(&mut out, " — ");
            push_speed_label(&mut out, &val);
            proof {
                assert(speed_from_lines(rest) == Some(out@));
            }
            return Some(string_of(&out));
        }
        i = i + 1;
    }
    None
}

/// The selector `BUS:DEV` that `lsusb -s` takes, with the bus and device
/// numbers read as `u32` (leading zeros dropped); `None` when either does
/// not parse.
pub open spec fn lsusb_selector_text(bus: Seq<char>, device: Seq<char>) -> Option<Seq<char>> {
    match (parse_u32(bus), parse_u32(device)) {
        (Some(b), Some(d)) => Some(dec(b as nat) + ":"@ + dec(d as nat)),
        _ => None,
    }
}

/// The selector `BUS:DEV` for `lsusb -s`.
pub fn lsusb_selector(bus: &str, device: &str) -> (r: Option<String>)
    ensures
        r matches Some(s) ==> lsusb_selector_text(bus@, device@) == Some(s@),
        r is None ==> lsusb_selector_text(bus@, device@) is None,
{
    let b = match parse_u32_exec(&chars_of(bus)) {
        Some(n) => n,
        None => return None,
    };
    let d = match parse_u32_exec(&chars_of(device)) {
        Some(n) => n,
        None => return None,
    };
    let mut out: Vec<char> = Vec::new();
    push_decimal(&mut out, b as u128);
    push_str(&mut out, ":");
    push_decimal(&mut out, d as u128);
    Some(string_of(&out))
}

// ---------------------------------------------------------------------------
// The device list
// ---------------------------------------------------------------------------
/// The sort keys of the device list: the bus, then the device number, both
/// as text.
pub open spec fn usb_keys(devs: Seq<UsbDevice>) -> Seq<(Seq<char>, Seq<char>)> {
    Seq::new(devs.len(), |i: int| (devs[i].bus@, devs[i].device@))
}

/// The order in which the devices are listed: a stable sort by bus, then
/// by device number (positions in `devs`).
pub fn usb_display_order(devs: &Vec<UsbDevice>) -> (r: Vec<usize>)
    ensures
        is_pair_order(usb_keys(devs@), r@),
{
    let mut ks: Vec<(Vec<char>, Vec<char>)> = Vec::new();
    let mut i: usize = 0;
    while i < devs.len()
        invariant
            i <= devs.len(),
            ks.len() == i,
            forall|j: int| 0 <= j < i ==> (#[trigger] ks[j]).0@ == devs[j].bus@ && ks[j].1@ == devs[j].device@,
        decreases devs.len() - i,
    {
        ks.push((chars_of(devs[i].bus.as_str()), chars_of(devs[i].device.as_str())));
        i = i + 1;
    }
    proof {
        assert(pair_views(ks@) =~= usb_keys(devs@));
    }
    pair_order(&ks)
}

/// Whether row `i` of the listed buses opens a new bus (its bus differs from
/// the row above; above the first row stands the empty bus), and whether it
/// is the last row of its bus.
pub open spec fn bus_mark(buses: Seq<Seq<char>>, i: int) -> (bool, bool) {
    (
        buses[i] != (if i == 0 {
            Seq::<char>::empty()
        } else {
            buses[i - 1]
        }),
        i + 1 == buses.len() || buses[i + 1] != buses[i],
    )
}

/// The tree marks of the device list, given the buses of the listed rows.
pub fn bus_marks(buses: &Vec<String>) -> (r: Vec<(bool, bool)>)
    ensures
        r.len() == buses.len(),
        forall|i: int| 0 <= i < buses.len() ==> #[trigger] r[i] == bus_mark(views_of(buses@), i),
{
    let ghost bs = views_of(buses@);
    let mut cs: Vec<Vec<char>> = Vec::new();
    let mut i: usize = 0;
    while i < buses.len()
        invariant
            i <= buses.len(),
            bs == views_of(buses@),
            cs.len() == i,
            forall|j: int| 0 <= j < i ==> #[trigger] cs[j]@ == bs[j],
        decreases buses.len() - i,
    {
        cs.push(chars_of(buses[i].as_str()));
        i = i + 1;
    }
    let empty: Vec<char> = Vec::new();
    let mut r: Vec<(bool, bool)> = Vec::new();
    let mut i: usize = 0;
    while i < cs.len()
        invariant
            i <= cs.len(),
            cs.len() == buses.len(),
            bs == views_of(buses@),
            bs.len() == buses.len(),
            empty@ == Seq::<char>::empty(),
            forall|j: int| 0 <= j < cs.len() ==> #[trigger] cs[j]@ == bs[j],
            r.len() == i,
            forall|j: int| 0 <= j < i ==> #[trigger] r[j] == bus_mark(bs, j),
        decreases cs.len() - i,
    {
        let above = if i == 0 {
            &empty
        } else {
            &cs[i - 1]
        };
        let opens = !same_chars(&cs[i], above);
        let last = i + 1 == cs.len() || !same_chars(&cs[i + 1], &cs[i]);
        r.push((opens, last));
        i = i + 1;
    }
    r
}

/// The text of a list of strings.
pub open spec fn views_of(v: Seq<String>) -> Seq<Seq<char>> {
    Seq::new(v.len(), |i: int| v[i]@)
}

fn same_chars(a: &Vec<char>, b: &Vec<char>) -> (e: bool)
    ensures
        e == (a@ == b@),
{
    if a.len() != b.len() {
        return false;
    }
    let mut i: usize = 0;
    while i < a.len()
        invariant
            i <= a.len(),
            a.len() == b.len(),
            forall|k: int| 0 <= k < i ==> a@[k] == b@[k],
        decreases a.len() - i,
    {
        if a[i] != b[i] {
            return false;
        }
        i = i + 1;
    }
    proof {
        assert(a@ =~= b@);
    }
    true
}

/// A hub's description is printed dimmed.
pub open spec fn is_hub_text(desc: Seq<char>) -> bool {
    contains(fold_lower(desc), "hub"@)
}

/// Whether a description names a hub (case-insensitively).
pub fn is_hub_description(desc: &str) -> (b: bool)
    ensures
        b == is_hub_text(desc@),
{
    contains_str(&fold_lower_exec(&chars_of(desc)), "hub")
}

// ---------------------------------------------------------------------------
// The summary by class
// ---------------------------------------------------------------------------
/// The place of a class in the order in which classes are tested.
pub open spec fn kind_rank(k: DeviceKind) -> nat {
    match k {
        DeviceKind::InternalHub => 0,
        DeviceKind::Hub => 1,
        DeviceKind::Keyboard => 2,
        DeviceKind::Mouse => 3,
        DeviceKind::Camera => 4,
        DeviceKind::Bluetooth => 5,
        DeviceKind::Audio => 6,
        DeviceKind::Storage => 7,
        DeviceKind::Network => 8,
        DeviceKind::Printer => 9,
        DeviceKind::Serial => 10,
        DeviceKind::Other => 11,
    }
}

/// The number of classes.
pub const KIND_COUNT: usize = 12;

/// The class at a place of the test order.
pub open spec fn kind_at(r: int) -> DeviceKind {
    if r == 0 {
        DeviceKind::InternalHub
    } else if r == 1 {
        DeviceKind::Hub
    } else if r == 2 {
        DeviceKind::Keyboard
    } else if r == 3 {
        DeviceKind::Mouse
    } else if r == 4 {
        DeviceKind::Camera
    } else if r == 5 {
        DeviceKind::Bluetooth
    } else if r == 6 {
        DeviceKind::Audio
    } else if r == 7 {
        DeviceKind::Storage
    } else if r == 8 {
        DeviceKind::Network
    } else if r == 9 {
        DeviceKind::Printer
    } else if r == 10 {
        DeviceKind::Serial
    } else {
        DeviceKind::Other
    }
}

fn rank_of(k: &DeviceKind) -> (r: usize)
    ensures
        r == kind_rank(*k),
        r < KIND_COUNT,
        kind_at(r as int) == *k,
{
    match k {
        DeviceKind::InternalHub => 0,
        DeviceKind::Hub => 1,
        DeviceKind::Keyboard => 2,
        DeviceKind::Mouse => 3,
        DeviceKind::Camera => 4,
        DeviceKind::Bluetooth => 5,
        DeviceKind::Audio => 6,
        DeviceKind::Storage => 7,
        DeviceKind::Network => 8,
        DeviceKind::Printer => 9,
        DeviceKind::Serial => 10,
        DeviceKind::Other => 11,
    }
}

fn kind_of_rank(r: usize) -> (k: DeviceKind)
    requires
        r < KIND_COUNT,
    ensures
        k == kind_at(r as int),
        kind_rank(k) == r,
{
    if r == 0 {
        DeviceKind::InternalHub
    } else if r == 1 {
        DeviceKind::Hub
    } else if r == 2 {
        DeviceKind::Keyboard
    } else if r == 3 {
        DeviceKind::Mouse
    } else if r == 4 {
        DeviceKind::Camera
    } else if r == 5 {
        DeviceKind::Bluetooth
    } else if r == 6 {
        DeviceKind::Audio
    } else if r == 7 {
        DeviceKind::Storage
    } else if r == 8 {
        DeviceKind::Network
    } else if r == 9 {
        DeviceKind::Printer
    } else if r == 10 {
        DeviceKind::Serial
    } else {
        DeviceKind::Other
    }
}

/// How many of the devices fall in class `k`.
pub open spec fn count_kind(ks: Seq<DeviceKind>, k: DeviceKind) -> nat
    decreases ks.len(),
{
    if ks.len() == 0 {
        0
    } else {
        count_kind(ks.drop_last(), k) + if ks.last() == k {
            1nat
        } else {
            0nat
        }
    }
}

/// `r` lists each class that occurs among `ks` once with its number of
/// devices, the most frequent first; classes with equal numbers come in
/// the order in which classes are tested.
pub open spec fn is_kind_summary(ks: Seq<DeviceKind>, r: Seq<(DeviceKind, usize)>) -> bool {
    &&& forall|t: int|
        0 <= t < r.len() ==> (#[trigger] r[t]).1 == count_kind(ks, r[t].0) && r[t].1 > 0
    &&& forall|t: int, u: int|
        0 <= t < u < r.len() ==> r[t].1 > r[u].1 || (r[t].1 == r[u].1 && kind_rank(r[t].0)
            < kind_rank(r[u].0))
    &&& forall|k: DeviceKind|
        #[trigger] count_kind(ks, k) > 0 ==> exists|t: int| 0 <= t < r.len() && r[t].0 == k
}

proof fn lemma_rank_injective(a: DeviceKind, b: DeviceKind)
    ensures
        kind_rank(a) == kind_rank(b) ==> a == b,
        kind_at(kind_rank(a) as int) == a,
{
}

/// The summary of the device list by class.
pub fn kind_summary(ks: &Vec<DeviceKind>) -> (r: Vec<(DeviceKind, usize)>)
    ensures
        is_kind_summary(ks@, r@),
{
    let mut counts: Vec<usize> = Vec::new();
    let mut t: usize = 0;
    while t < KIND_COUNT
        invariant
            t <= KIND_COUNT,
            counts.len() == t,
            forall|q: int| 0 <= q < t ==> #[trigger] counts[q] == 0,
        decreases KIND_COUNT - t,
    {
        counts.push(0);
        t = t + 1;
    }
    let mut i: usize = 0;
    while i < ks.len()
        invariant
            i <= ks.len(),
            counts.len() == KIND_COUNT,
            forall|q: int|
                0 <= q < KIND_COUNT ==> #[trigger] counts[q] == count_kind(
                    ks@.take(i as int),
                    kind_at(q),
                ),
            forall|q: int| 0 <= q < KIND_COUNT ==> #[trigger] counts[q] <= i,
        decreases ks.len() - i,
    {
        let q = rank_of(&ks[i]);
        proof {
            assert(ks@.take(i + 1).drop_last() =~= ks@.take(i as int));
            assert(ks@.take(i + 1).last() == ks[i as int]);
            assert forall|m: int| 0 <= m < KIND_COUNT && m != q implies #[trigger] kind_at(m) != ks[i as int] by {
                lemma_rank_injective(kind_at(m), ks[i as int]);
            }
        }
        let c = counts[q];
        counts.set(q, c + 1);
        i = i + 1;
    }
    proof {
        assert(ks@.take(ks.len() as int) =~= ks@);
    }
    let mut r: Vec<(DeviceKind, usize)> = Vec::new();
    let mut q: usize = 0;
    while q < KIND_COUNT
        invariant
            q <= KIND_COUNT,
            counts.len() == KIND_COUNT,
            forall|m: int| 0 <= m < KIND_COUNT ==> #[trigger] counts[m] == count_kind(ks@, kind_at(m)),
            forall|t: int|
                0 <= t < r.len() ==> (#[trigger] r[t]).1 == count_kind(ks@, r[t].0) && r[t].1 > 0
                    && kind_rank(r[t].0) < q,
            forall|t: int, u: int|
                0 <= t < u < r.len() ==> r[t].1 > r[u].1 || (r[t].1 == r[u].1 && kind_rank(r[t].0)
                    < kind_rank(r[u].0)),
            forall|m: int|
                0 <= m < q && #[trigger] count_kind(ks@, kind_at(m)) > 0 ==> exists|t: int|
                    0 <= t < r.len() && r[t].0 == kind_at(m),
        decreases KIND_COUNT - q,
    {
        let c = counts[q];
        if c > 0 {
            let mut p: usize = 0;
            while p < r.len() && r[p].1 >= c
                invariant
                    p <= r.len(),
                    forall|t: int| 0 <= t < p ==> (#[trigger] r[t]).1 >= c,
                decreases r.len() - p,
            {
                p = p + 1;
            }
            let k = kind_of_rank(q);
            let ghost old_r = r@;
            r.insert(p, (k, c));
            proof {
                assert(r@ == old_r.insert(p as int, (k, c)));
                assert forall|m: int|
                    0 <= m < q + 1 && #[trigger] count_kind(ks@, kind_at(m)) > 0 implies exists|t: int|
                    0 <= t < r.len() && r[t].0 == kind_at(m) by {
                    if m == q {
                        assert(r[p as int].0 == kind_at(m));
                    } else {
                        let t = choose|t: int| 0 <= t < old_r.len() && old_r[t].0 == kind_at(m);
                        if t < p {
                            assert(r[t].0 == kind_at(m));
                        } else {
                            assert(r[t + 1].0 == kind_at(m));
                        }
                    }
                }
            }
        }
        q = q + 1;
    }
    proof {
        assert forall|k: DeviceKind| #[trigger] count_kind(ks@, k) > 0 implies exists|t: int|
            0 <= t < r.len() && r[t].0 == k by {
            lemma_rank_injective(k, k);
            let m = kind_rank(k) as int;
            assert(count_kind(ks@, kind_at(m)) > 0);
        }
    }
    r
}

} // verus!
