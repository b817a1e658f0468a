//! The device classifier: turns the text printed by the block-device
//! listing and by the per-device identify queries into disk descriptors.

use vstd::prelude::*;
use crate::disk::{DiskInfo, DiskView, MediaType, Origin, Transport, disk_key};
use crate::text::{
    Separator, chars_of, nonempty, contains, copy_range, decimal, find, pieces, split, string_of, trim,
    trimmed, views, words,
};

verus! {

/// The characters of a text in lower case, as `str::to_lowercase` gives them.
pub uninterp spec fn lower_of(s: Seq<char>) -> Seq<char>;

/// Relies on `str::to_lowercase`: the lower-case form depends on the
/// characters alone.
#[verifier::external_body]
fn lowercase(s: &str) -> (r: String)
    ensures
        r@ == lower_of(s@),
{
    s.to_lowercase()
}

/// The transport named by a lower-case transport word of the listing.
pub open spec fn transport_named(w: Seq<char>) -> Transport {
    if w == "sata"@ {
        Transport::Sata
    } else if w == "usb"@ {
        Transport::Usb
    } else if w == "nvme"@ {
        Transport::Nvme
    } else {
        Transport::Unknown
    }
}

/// One line of the listing that names a device: the device's name and the
/// transport of the second column, `Unknown` where that column is missing.
pub open spec fn entry_of_line(l: Seq<char>) -> Option<(Seq<char>, Transport)> {
    let w = words(l);
    if w.len() == 0 {
        None
    } else if w.len() == 1 {
        Some((w[0], Transport::Unknown))
    } else {
        Some((w[0], transport_named(lower_of(w[1]))))
    }
}

pub open spec fn line_entry() -> spec_fn(Seq<char>) -> Option<(Seq<char>, Transport)> {
    |l: Seq<char>| entry_of_line(l)
}

/// The devices of a listing: each non-blank line after the header line.
pub open spec fn device_entries(listing: Seq<char>) -> Seq<(Seq<char>, Transport)> {
    pieces(listing, Separator::Newline).skip(1).filter_map(line_entry())
}

/// A device named in the block-device listing.
#[derive(Debug)]
pub struct DeviceEntry {
    pub name: String,
    pub transport: Transport,
}

impl View for DeviceEntry {
    type V = (Seq<char>, Transport);

    open spec fn view(&self) -> (Seq<char>, Transport) {
        (self.name@, self.transport)
    }
}

pub open spec fn entry_views(v: Seq<DeviceEntry>) -> Seq<(Seq<char>, Transport)> {
    v.map_values(|e: DeviceEntry| e@)
}

/// Whether two runs of characters are equal.
pub fn same_chars(a: &[char], b: &[char]) -> (r: bool)
    ensures
        r == (a@ == b@),
{
    if a.len() != b.len() {
        return false;
    }
    let mut i: usize = 0;
    while i < a.len()
        invariant
            a@.len() == b@.len(),
            i <= a@.len(),
            forall|k: int| 0 <= k < i ==> a@[k] == b@[k],
        decreases a.len() - i,
    {
        if a[i] != b[i] {
            return false;
        }
        i = i + 1;
    }
    assert(a@ =~= b@);
    true
}

/// The transport that a transport word names, in any letter case.
pub fn transport_from_word(lowered: &[char]) -> (r: Transport)
    ensures
        r == transport_named(lowered@),
{
    if same_chars(lowered, &chars_of("sata")) {
        Transport::Sata
    } else if same_chars(lowered, &chars_of("usb")) {
        Transport::Usb
    } else if same_chars(lowered, &chars_of("nvme")) {
        Transport::Nvme
    } else {
        Transport::Unknown
    }
}

/// The non-empty blank-separated words of `cs`.
pub fn words_in(cs: &[char]) -> (r: Vec<Vec<char>>)
    ensures
        views(r@) == words(cs@),
{
    let ps = split(cs, Separator::Blank);
    let ghost pred = nonempty();
    let mut out: Vec<Vec<char>> = Vec::new();
    let mut k: usize = 0;
    while k < ps.len()
        invariant
            k <= ps@.len(),
            pred == nonempty(),
            views(ps@) == pieces(cs@, Separator::Blank),
            views(out@) == views(ps@).take(k as int).filter(pred),
        decreases ps.len() - k,
    {
        assert(views(ps@).take(k + 1).drop_last() =~= views(ps@).take(k as int));
        assert(views(ps@).take(k + 1).last() == ps@[k as int]@);
        reveal(Seq::filter);
        if ps[k].len() > 0 {
            let ghost before = out@;
            let w = copy_range(&ps[k], 0, ps[k].len());
            assert(w@ =~= ps@[k as int]@);
            out.push(w);
            assert(views(out@) =~= views(before).push(ps@[k as int]@));
            assert(views(ps@).take(k + 1).filter(pred) == views(ps@).take(k as int).filter(
                pred,
            ).push(ps@[k as int]@));
        } else {
            assert(views(ps@).take(k + 1).filter(pred) == views(ps@).take(k as int).filter(pred));
        }
        k = k + 1;
    }
    assert(views(ps@).take(ps@.len() as int) =~= views(ps@));
    out
}

/// Reads the block-device listing: one entry for each non-blank line after
/// the header, from the name in the first column and the transport in the
/// second.
pub fn parse_device_list(listing: &str) -> (r: Vec<DeviceEntry>)
    ensures
        entry_views(r@) == device_entries(listing@),
{
    let cs = chars_of(listing);
    let ls = split(&cs, Separator::Newline);
    let ghost f = line_entry();
    let ghost lv = views(ls@);
    let mut out: Vec<DeviceEntry> = Vec::new();
    proof {
        crate::text::lemma_pieces_len(listing@, Separator::Newline);
    }
    let mut j: usize = 1;
    while j < ls.len()
        invariant
            1 <= j <= ls@.len(),
            f == line_entry(),
            lv == views(ls@),
            lv == pieces(listing@, Separator::Newline),
            entry_views(out@) == lv.subrange(1, j as int).filter_map(f),
        decreases ls.len() - j,
    {
        assert(lv.subrange(1, j + 1).drop_last() =~= lv.subrange(1, j as int));
        assert(lv.subrange(1, j + 1).last() == ls@[j as int]@);
        let ws = words_in(&ls[j]);
        if ws.len() > 0 {
            let name = string_of(&ws[0]);
            let transport = if ws.len() >= 2 {
                let lowered = lowercase(&string_of(&ws[1]));
                transport_from_word(&chars_of(&lowered))
            } else {
                Transport::Unknown
            };
            let ghost before = out@;
            assert(views(ws@)[0] == ws@[0]@);
            assert(ws@.len() >= 2 ==> views(ws@)[1] == ws@[1]@);
            let ghost e = (name@, transport);
            assert(f(ls@[j as int]@) == Some(e));
            out.push(DeviceEntry { name, transport });
            assert(entry_views(out@) =~= entry_views(before) + seq![e]);
        } else {
            assert(f(ls@[j as int]@) is None);
        }
        j = j + 1;
    }
    assert(lv.subrange(1, lv.len() as int) =~= lv.skip(1));
    out
}

/// A line that holds one of `labels` and has a value after a colon.
pub open spec fn carries_label(l: Seq<char>, labels: Seq<Seq<char>>) -> bool {
    &&& exists|i: int| 0 <= i < labels.len() && contains(l, #[trigger] labels[i])
    &&& pieces(l, Separator::Colon).len() > 1
}

/// The value of a labelled line: the text between its first colon and the
/// next one, trimmed.
pub open spec fn label_value(l: Seq<char>) -> Seq<char> {
    trim(pieces(l, Separator::Colon)[1])
}

/// The value of the first of `ls` that carries one of `labels`.
pub open spec fn first_value(ls: Seq<Seq<char>>, labels: Seq<Seq<char>>) -> Option<Seq<char>>
    decreases ls.len(),
{
    if ls.len() == 0 {
        None
    } else if carries_label(ls[0], labels) {
        Some(label_value(ls[0]))
    } else {
        first_value(ls.drop_first(), labels)
    }
}

/// The value of the first line of `report` that carries one of `labels`.
pub open spec fn field(report: Seq<char>, labels: Seq<Seq<char>>) -> Option<Seq<char>> {
    first_value(pieces(report, Separator::Newline), labels)
}

/// Whether `l` holds one of `labels`.
fn holds_any(l: &[char], labels: &Vec<Vec<char>>) -> (r: bool)
    ensures
        r == exists|i: int| 0 <= i < labels@.len() && contains(l@, #[trigger] views(labels@)[i]),
{
    let mut i: usize = 0;
    while i < labels.len()
        invariant
            i <= labels@.len(),
            forall|k: int| 0 <= k < i ==> !contains(l@, #[trigger] views(labels@)[k]),
        decreases labels.len() - i,
    {
        if find(l, &labels[i]) {
            assert(contains(l@, views(labels@)[i as int]));
            return true;
        }
        i = i + 1;
    }
    false
}

/// The value of the first line that carries one of `labels`.
fn first_field(lines: &Vec<Vec<char>>, labels: &Vec<Vec<char>>) -> (r: Option<Vec<char>>)
    ensures
        r is Some ==> first_value(views(lines@), views(labels@)) == Some(r->0@),
        r is None ==> first_value(views(lines@), views(labels@)) is None,
{
    let ghost lv = views(lines@);
    let ghost labs = views(labels@);
    let mut j: usize = 0;
    assert(lv.subrange(0, lv.len() as int) =~= lv);
    while j < lines.len()
        invariant
            j <= lines@.len(),
            lv == views(lines@),
            labs == views(labels@),
            first_value(lv, labs) == first_value(lv.subrange(j as int, lv.len() as int), labs),
        decreases lines.len() - j,
    {
        let l = &lines[j];
        let ghost rest = lv.subrange(j as int, lv.len() as int);
        assert(rest[0] == l@);
        assert(rest.drop_first() =~= lv.subrange(j + 1, lv.len() as int));
        if holds_any(l, labels) {
            let parts = split(l, Separator::Colon);
            if parts.len() > 1 {
                assert(views(parts@)[1] == parts@[1]@);
                return Some(trimmed(&parts[1]));
            }
        }
        j = j + 1;
    }
    None
}

/// The media type that the rotation-rate value states: a solid-state
/// marker, or a positive rate in revolutions per minute.
pub open spec fn rate_media(v: Seq<char>) -> Option<MediaType> {
    if v == "Solid State Device"@ {
        Some(MediaType::Ssd)
    } else {
        match decimal(v, 0xFFFF_FFFF) {
            Some(n) => if n > 0 {
                Some(MediaType::Hdd)
            } else {
                None
            },
            None => None,
        }
    }
}

/// Whether an identify report mentions flash storage anywhere.
pub open spec fn flash_marked(report: Seq<char>) -> bool {
    contains(report, "Solid State"@) || contains(report, "SSD"@) || contains(report, "Flash"@)
}

/// The media type that a lower-case model name suggests.
pub open spec fn model_media(lowered: Seq<char>) -> MediaType {
    if contains(lowered, "ssd"@) || contains(lowered, "solid"@) || contains(lowered, "flash"@)
        || contains(lowered, "nvme"@) {
        MediaType::Ssd
    } else if contains(lowered, "hdd"@) || contains(lowered, "hard drive"@) || contains(
        lowered,
        "harddisk"@,
    ) {
        MediaType::Hdd
    } else {
        MediaType::Unknown
    }
}

/// The media type of a device from its identify report and its model name
/// in lower case: the rotation-rate field first, then flash markers
/// anywhere in the report, then the model name.
pub open spec fn report_media(report: Seq<char>, lowered_model: Seq<char>) -> MediaType {
    let rate = field(report, seq!["Rotation Rate"@]);
    if rate is Some && rate_media(rate->0) is Some {
        rate_media(rate->0)->0
    } else if flash_marked(report) {
        MediaType::Ssd
    } else {
        model_media(lowered_model)
    }
}

fn labels_of(label: &str) -> (r: Vec<Vec<char>>)
    ensures
        views(r@) == seq![label@],
{
    let r = vec![chars_of(label)];
    assert(views(r@) =~= seq![label@]);
    r
}

fn media_from_rate(v: &[char]) -> (r: Option<MediaType>)
    ensures
        r == rate_media(v@),
{
    if same_chars(v, &chars_of("Solid State Device")) {
        Some(MediaType::Ssd)
    } else {
        match crate::text::parse_decimal(v, 0xFFFF_FFFF) {
            Some(n) => if n > 0 {
                Some(MediaType::Hdd)
            } else {
                None
            },
            None => None,
        }
    }
}

fn media_from_model(lowered: &[char]) -> (r: MediaType)
    ensures
        r == model_media(lowered@),
{
    if find(lowered, &chars_of("ssd")) || find(lowered, &chars_of("solid")) || find(
        lowered,
        &chars_of("flash"),
    ) || find(lowered, &chars_of("nvme")) {
        MediaType::Ssd
    } else if find(lowered, &chars_of("hdd")) || find(lowered, &chars_of("hard drive")) || find(
        lowered,
        &chars_of("harddisk"),
    ) {
        MediaType::Hdd
    } else {
        MediaType::Unknown
    }
}

fn media_of_chars(report: &[char], lines: &Vec<Vec<char>>, lowered_model: &[char]) -> (r: MediaType)
    requires
        views(lines@) == pieces(report@, Separator::Newline),
    ensures
        r == report_media(report@, lowered_model@),
{
    let rate = first_field(lines, &labels_of("Rotation Rate"));
    let from_rate = match &rate {
        Some(v) => media_from_rate(v),
        None => None,
    };
    match from_rate {
        Some(m) => m,
        None => if find(report, &chars_of("Solid State")) || find(report, &chars_of("SSD"))
            || find(report, &chars_of("Flash")) {
            MediaType::Ssd
        } else {
            media_from_model(lowered_model)
        },
    }
}

/// The media type of a device from its identify report and its model name
/// in lower case.
pub fn media_type_of(report: &str, lowered_model: &str) -> (r: MediaType)
    ensures
        r == report_media(report@, lowered_model@),
{
    let cs = chars_of(report);
    let lines = split(&cs, Separator::Newline);
    media_of_chars(&cs, &lines, &chars_of(lowered_model))
}

/// The block-device path of a device name.
pub open spec fn device_path(name: Seq<char>) -> Seq<char> {
    "/dev/"@ + name
}

/// Device names of the NVMe family.
pub open spec fn is_nvme_name(name: Seq<char>) -> bool {
    name.len() >= 4 && name.take(4) == "nvme"@
}

/// The model of a SATA, SCSI or USB device: the `Model Number` field of its
/// report, or a placeholder naming the device.
pub open spec fn ata_model(name: Seq<char>, report: Option<Seq<char>>) -> Seq<char> {
    match report {
        Some(r) => match field(r, seq!["Model Number"@]) {
            Some(m) => m,
            None => "Disk "@ + name,
        },
        None => "Disk "@ + name,
    }
}

/// The model of an NVMe device: its `mn` or `Model Number` field, or a
/// placeholder naming the device.
pub open spec fn nvme_model(name: Seq<char>, report: Option<Seq<char>>) -> Seq<char> {
    match report {
        Some(r) => match field(r, seq!["mn"@, "Model Number"@]) {
            Some(m) => m,
            None => "NVMe Drive "@ + name,
        },
        None => "NVMe Drive "@ + name,
    }
}

/// The descriptor of a listed device, from its identify report, or from
/// nothing where the identify query could not be run. NVMe devices are
/// flash storage whatever their report says; for others a missing report
/// leaves the media type unknown.
pub open spec fn disk_of(entry: (Seq<char>, Transport), report: Option<Seq<char>>) -> DiskView {
    let name = entry.0;
    if is_nvme_name(name) {
        DiskView {
            path: device_path(name),
            model: nvme_model(name, report),
            media: MediaType::Ssd,
            transport: Transport::Nvme,
            origin: Origin::Detected,
        }
    } else {
        let model = ata_model(name, report);
        DiskView {
            path: device_path(name),
            model,
            media: match report {
                Some(r) => report_media(r, lower_of(model)),
                None => MediaType::Unknown,
            },
            transport: entry.1,
            origin: Origin::Detected,
        }
    }
}

pub open spec fn report_view(report: Option<&str>) -> Option<Seq<char>> {
    match report {
        Some(s) => Some(s@),
        None => None,
    }
}

impl DeviceEntry {
    /// Whether the device belongs to the NVMe family, whose identify query
    /// differs from that of other devices.
    pub fn is_nvme(&self) -> (r: bool)
        ensures
            r == is_nvme_name(self.name@),
    {
        let cs = chars_of(self.name.as_str());
        if cs.len() < 4 {
            return false;
        }
        let head = copy_range(&cs, 0, 4);
        assert(head@ == cs@.take(4));
        same_chars(&head, &chars_of("nvme"))
    }

    /// The block-device path of the device.
    pub fn path(&self) -> (r: String)
        ensures
            r@ == device_path(self.name@),
    {
        let mut p = String::from_str("/dev/");
        p.append(self.name.as_str());
        p
    }
}

fn placeholder(prefix: &str, name: &String) -> (r: String)
    ensures
        r@ == prefix@ + name@,
{
    let mut p = String::from_str(prefix);
    p.append(name.as_str());
    p
}

/// The descriptor of a listed device from the output of its identify query,
/// or from nothing where that query could not be run.
pub fn describe_device(entry: &DeviceEntry, report: Option<&str>) -> (r: DiskInfo)
    ensures
        r@ == disk_of(entry@, report_view(report)),
{
    let nvme = entry.is_nvme();
    let path = entry.path();
    if nvme {
        let model = match report {
            Some(text) => {
                let cs = chars_of(text);
                let lines = split(&cs, Separator::Newline);
                let labels = vec![chars_of("mn"), chars_of("Model Number")];
                assert(views(labels@) =~= seq!["mn"@, "Model Number"@]);
                match first_field(&lines, &labels) {
                    Some(m) => string_of(&m),
                    None => placeholder("NVMe Drive ", &entry.name),
                }
            },
            None => placeholder("NVMe Drive ", &entry.name),
        };
        DiskInfo {
            device_name: path,
            model,
            device_type: MediaType::Ssd,
            transport: Transport::Nvme,
            origin: Origin::Detected,
        }
    } else {
        match report {
            Some(text) => {
                let cs = chars_of(text);
                let lines = split(&cs, Separator::Newline);
                let model = match first_field(&lines, &labels_of("Model Number")) {
                    Some(m) => string_of(&m),
                    None => placeholder("Disk ", &entry.name),
                };
                let lowered = lowercase(model.as_str());
                let media = media_of_chars(&cs, &lines, &chars_of(lowered.as_str()));
                DiskInfo {
                    device_name: path,
                    model,
                    device_type: media,
                    transport: entry.transport,
                    origin: Origin::Detected,
                }
            },
            None => DiskInfo {
                device_name: path,
                model: placeholder("Disk ", &entry.name),
                device_type: MediaType::Unknown,
                transport: entry.transport,
                origin: Origin::Detected,
            },
        }
    }
}

/// Why a detection pass has no descriptors to offer.
#[derive(Clone, Copy, PartialEq, Eq, Structural, Debug)]
pub enum DetectionError {
    /// The listing named no device.
    NoDevices,
}

pub open spec fn disk_views(v: Seq<DiskInfo>) -> Seq<DiskView> {
    v.map_values(|d: DiskInfo| d@)
}

pub open spec fn report_views(v: Seq<Option<String>>) -> Seq<Option<Seq<char>>> {
    v.map_values(
        |o: Option<String>|
            match o {
                Some(s) => Some(s@),
                None => None,
            },
    )
}

/// The descriptors of a detection pass: one for each listed device, from
/// its identify report.
pub open spec fn paths(v: Seq<DiskView>) -> Seq<Seq<char>> {
    v.map_values(|d: DiskView| d.path)
}

/// `v` with every descriptor whose path an earlier one already has left
/// out.
pub open spec fn first_per_path(v: Seq<DiskView>) -> Seq<DiskView>
    decreases v.len(),
{
    if v.len() == 0 {
        v
    } else {
        let rest = first_per_path(v.drop_last());
        if paths(rest).contains(v.last().path) {
            rest
        } else {
            rest.push(v.last())
        }
    }
}

/// The descriptors of a detection pass: one for each listed device, from
/// its identify report, a device listed twice keeping its first descriptor.
pub open spec fn detected(
    entries: Seq<(Seq<char>, Transport)>,
    reports: Seq<Option<Seq<char>>>,
) -> Seq<DiskView> {
    first_per_path(Seq::new(entries.len(), |i: int| disk_of(entries[i], reports[i])))
}

pub open spec fn distinct_paths(v: Seq<DiskView>) -> bool {
    forall|i: int, j: int| 0 <= i < j < v.len() ==> v[i].path != v[j].path
}

/// No two descriptors that `first_per_path` keeps share a path, and a
/// non-empty sequence keeps at least one.
pub proof fn lemma_first_per_path(v: Seq<DiskView>)
    ensures
        distinct_paths(first_per_path(v)),
        v.len() > 0 ==> first_per_path(v).len() > 0,
    decreases v.len(),
{
    if v.len() > 0 {
        let rest = first_per_path(v.drop_last());
        lemma_first_per_path(v.drop_last());
        if !paths(rest).contains(v.last().path) {
            let r = rest.push(v.last());
            assert forall|i: int, j: int| 0 <= i < j < r.len() implies r[i].path != r[j].path by {
                if j == rest.len() {
                    assert(paths(rest)[i] == rest[i].path);
                }
            }
        } else {
            assert(rest.len() > 0);
        }
    }
}

fn has_path(disks: &Vec<DiskInfo>, path: &String) -> (r: bool)
    ensures
        r == paths(disk_views(disks@)).contains(path@),
{
    let ghost ps = paths(disk_views(disks@));
    let mut k: usize = 0;
    while k < disks.len()
        invariant
            k <= disks@.len(),
            ps == paths(disk_views(disks@)),
            forall|m: int| 0 <= m < k ==> ps[m] != path@,
        decreases disks.len() - k,
    {
        if disks[k].device_name == *path {
            assert(ps[k as int] == path@);
            return true;
        }
        k = k + 1;
    }
    false
}

/// Classifies each listed device from the output of its identify query
/// (`None` where the query could not be run). A device listed twice is
/// described once, so that no two descriptors share a path. An empty
/// listing is reported as such: nothing is made up in its place.
pub fn detect_disks(entries: &Vec<DeviceEntry>, reports: &Vec<Option<String>>) -> (r: Result<
    Vec<DiskInfo>,
    DetectionError,
>)
    requires
        entries@.len() == reports@.len(),
    ensures
        entries@.len() == 0 <==> r == Err::<Vec<DiskInfo>, DetectionError>(DetectionError::NoDevices),
        r is Ok ==> disk_views(r->Ok_0@) == detected(entry_views(entries@), report_views(reports@)),
        r is Ok ==> r->Ok_0@.len() > 0,
        r is Ok ==> forall|i: int, j: int|
            0 <= i < j < r->Ok_0@.len() ==> r->Ok_0@[i].device_name@ != r->Ok_0@[j].device_name@,
{
    if entries.len() == 0 {
        return Err(DetectionError::NoDevices);
    }
    let ghost all = Seq::new(
        entries@.len(),
        |i: int| disk_of(entry_views(entries@)[i], report_views(reports@)[i]),
    );
    let mut out: Vec<DiskInfo> = Vec::new();
    let mut i: usize = 0;
    while i < entries.len()
        invariant
            i <= entries@.len() == reports@.len(),
            all == Seq::new(
                entries@.len(),
                |i: int| disk_of(entry_views(entries@)[i], report_views(reports@)[i]),
            ),
            disk_views(out@) == first_per_path(all.take(i as int)),
        decreases entries.len() - i,
    {
        let report = match &reports[i] {
            Some(s) => Some(s.as_str()),
            None => None,
        };
        assert(report_view(report) == report_views(reports@)[i as int]);
        assert(entry_views(entries@)[i as int] == entries@[i as int]@);
        let d = describe_device(&entries[i], report);
        assert(all.take(i + 1).drop_last() =~= all.take(i as int));
        assert(all.take(i + 1).last() == d@);
        if !has_path(&out, &d.device_name) {
            let ghost before = out@;
            let ghost dv = d@;
            out.push(d);
            assert(disk_views(out@) =~= disk_views(before).push(dv));
        }
        i = i + 1;
    }
    assert(all.take(entries@.len() as int) =~= all);
    proof {
        lemma_first_per_path(all);
        assert forall|i: int, j: int| 0 <= i < j < out@.len() implies out@[i].device_name@
            != out@[j].device_name@ by {
            assert(disk_views(out@)[i] == out@[i]@);
            assert(disk_views(out@)[j] == out@[j]@);
        }
    }
    Ok(out)
}

/// A detection pass depends on nothing but the listing and the identify
/// reports: run twice on unchanged hardware it gives the same devices, with
/// the same paths, media types and transports, each path once.
pub proof fn lemma_detection_repeatable(
    entries: Seq<(Seq<char>, Transport)>,
    first: Seq<Option<Seq<char>>>,
    second: Seq<Option<Seq<char>>>,
)
    requires
        first == second,
        entries.len() == first.len(),
    ensures
        detected(entries, first).map_values(|d: DiskView| disk_key(d)) == detected(
            entries,
            second,
        ).map_values(|d: DiskView| disk_key(d)),
        distinct_paths(detected(entries, first)),
        distinct_paths(detected(entries, second)),
{
    lemma_first_per_path(Seq::new(entries.len(), |i: int| disk_of(entries[i], first[i])));
}

fn stand_in(path: &str, model: &str, media: MediaType, transport: Transport) -> (r: DiskInfo)
    ensures
        r@ == (DiskView { path: path@, model: model@, media, transport, origin: Origin::Synthesized }),
{
    DiskInfo {
        device_name: String::from_str(path),
        model: String::from_str(model),
        device_type: media,
        transport,
        origin: Origin::Synthesized,
    }
}

/// Stand-in descriptors for development where no real device can be
/// detected. Each is marked as synthesized, so that nobody mistakes it for
/// detected hardware.
pub fn get_dummy_disks() -> (r: Vec<DiskInfo>)
    ensures
        r@.len() == 3,
        forall|i: int| 0 <= i < 3 ==> (#[trigger] r@[i]).origin == Origin::Synthesized,
        r@[0]@ == (DiskView {
            path: "/dev/sda"@,
            model: "Samsung SSD 970 EVO Plus 1TB"@,
            media: MediaType::Ssd,
            transport: Transport::Sata,
            origin: Origin::Synthesized,
        }),
        r@[1]@ == (DiskView {
            path: "/dev/sdb"@,
            model: "WD Blue 2TB"@,
            media: MediaType::Hdd,
            transport: Transport::Sata,
            origin: Origin::Synthesized,
        }),
        r@[2]@ == (DiskView {
            path: "/dev/nvme0n1"@,
            model: "Samsung PM9A1 NVMe 512GB"@,
            media: MediaType::Ssd,
            transport: Transport::Nvme,
            origin: Origin::Synthesized,
        }),
{
    vec![
        stand_in("/dev/sda", "Samsung SSD 970 EVO Plus 1TB", MediaType::Ssd, Transport::Sata),
        stand_in("/dev/sdb", "WD Blue 2TB", MediaType::Hdd, Transport::Sata),
        stand_in("/dev/nvme0n1", "Samsung PM9A1 NVMe 512GB", MediaType::Ssd, Transport::Nvme),
    ]
}

} // verus!
