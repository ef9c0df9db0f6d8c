//! The two collectors and the aggregation of one pass: a record built from
//! the management daemon's answer when it is usable, from the sysfs walk
//! otherwise — exactly one source, never a merge — and the output text with
//! its optional expiry annotation.
//!
//! The surrounding process performs the outside work (the RPC calls, the
//! filesystem reads, the clock) and hands its observations in as plain
//! values; everything decided about them is decided here.

use vstd::prelude::*;
use crate::errors::FeatureError;
use crate::features::FeatureView;
use crate::features::RBLNFeatures;
use crate::features::empty_view;
use crate::features::lemma_idempotent_but_for_expiry;
use crate::features::line_split;
use crate::features::no_newline;
use crate::features::opt_view;
use crate::features::spec_plain_text;
use crate::features::spec_rendered;
use crate::taxonomy::RBLNDeviceFamily;
use crate::taxonomy::RBLNDeviceProduct;
use crate::taxonomy::family_of;
use crate::taxonomy::family_name;
use crate::taxonomy::product_name;
use crate::taxonomy::product_of_id;
use crate::text::dec_val;
use crate::text::parse_u8;
use crate::text::strip_hex_prefix;
use crate::text::strip_hex_prefix_str;
use crate::text::trim_spec;
use crate::text::trim_string;
use crate::text::u8_parse_ok;
use crate::version::dot_split;
use crate::version::parse_version;
use crate::version::revision_of;
use crate::version::semver_of;
use crate::version::split_semver;

verus! {

/// One vendor-matching PCI entry as the filesystem shows it: the raw
/// contents of its attribute files.
#[derive(Debug, Clone)]
pub struct SysfsDevice {
    /// Raw contents of the entry's `sriov_numvfs` attribute, where it has
    /// one.
    pub sriov_numvfs: Option<String>,
    /// Raw contents of the entry's `device` attribute: the device
    /// identifier.
    pub device_id: String,
}

/// What one daemon round brought: no connection at all, a failed device
/// listing, or the listed device identifiers together with the driver
/// version reported for the first device, where that second call succeeded.
#[derive(Debug)]
pub enum DaemonObservation {
    Unavailable,
    ListFailed,
    Listed { dev_ids: Vec<String>, driver_version: Option<String> },
}

/// A collector's result under the record's mathematical view.
pub open spec fn res_view(r: Result<RBLNFeatures, FeatureError>) -> Result<
    FeatureView,
    FeatureError,
> {
    match r {
        Ok(f) => Ok(f@),
        Err(e) => Err(e),
    }
}

/// The product a sysfs entry resolves to: the trimmed device identifier,
/// without its `0x` prefix, looked up in the taxonomy.
pub open spec fn spec_device_product(d: SysfsDevice) -> Result<
    Option<RBLNDeviceProduct>,
    FeatureError,
> {
    match product_of_id(strip_hex_prefix(trim_spec(d.device_id@))) {
        Some(p) => Ok(Some(p)),
        None => Err(FeatureError::UnknownDeviceId),
    }
}

/// What one sysfs entry contributes: nothing when virtualization is enabled
/// on it (a physical function whose virtual functions are counted instead),
/// its product otherwise; an unreadable virtual-function count or an unknown
/// identifier is a hard error.
pub open spec fn spec_device_outcome(d: SysfsDevice) -> Result<
    Option<RBLNDeviceProduct>,
    FeatureError,
> {
    match d.sriov_numvfs {
        Some(s) => {
            if !u8_parse_ok(trim_spec(s@)) {
                Err(FeatureError::InvalidNumber)
            } else if dec_val(trim_spec(s@)) != 0 {
                Ok(None)
            } else {
                spec_device_product(d)
            }
        },
        None => spec_device_product(d),
    }
}

/// The products of all counted entries, in walk order; the first failing
/// entry fails the walk.
pub open spec fn spec_collect_products(ds: Seq<SysfsDevice>) -> Result<
    Seq<RBLNDeviceProduct>,
    FeatureError,
>
    decreases ds.len(),
{
    if ds.len() == 0 {
        Ok(Seq::<RBLNDeviceProduct>::empty())
    } else {
        match spec_device_outcome(ds[0]) {
            Err(e) => Err(e),
            Ok(opt) => match spec_collect_products(ds.drop_first()) {
                Err(e) => Err(e),
                Ok(rest) => match opt {
                    Some(p) => Ok(seq![p] + rest),
                    None => Ok(rest),
                },
            },
        }
    }
}

/// The device half of a record: presence, count, and the first device's
/// family and product label.
pub open spec fn device_base_view(
    count: u8,
    p: RBLNDeviceProduct,
    f: RBLNDeviceFamily,
) -> FeatureView {
    FeatureView {
        npu_present: true,
        npu_count: Some(count),
        npu_family: Some(family_name(f)),
        npu_product: Some("RBLN-"@ + product_name(p)),
        driver_version_full: None,
        driver_version_major: None,
        driver_version_minor: None,
        driver_version_patch: None,
        driver_version_revision: None,
    }
}

/// The record the counted products yield: empty when none was counted, else
/// the first product names the label and family. Heterogeneous devices on
/// one host are not modeled: the first entry decides.
pub open spec fn spec_base_view(ps: Seq<RBLNDeviceProduct>) -> Result<FeatureView, FeatureError> {
    if ps.len() == 0 {
        Ok(empty_view())
    } else {
        match family_of(ps[0]) {
            None => Err(FeatureError::UnknownProductName),
            Some(f) => Ok(device_base_view(ps.len() as u8, ps[0], f)),
        }
    }
}

/// `base` with the driver-version fields a raw version string yields: the
/// full semantic part and the revision always, major, minor and patch only
/// when the semantic part has three dot-separated components.
pub open spec fn spec_apply_version(base: FeatureView, raw: Seq<char>) -> FeatureView {
    let sv = semver_of(raw);
    let parts = dot_split(sv);
    FeatureView {
        npu_present: base.npu_present,
        npu_count: base.npu_count,
        npu_family: base.npu_family,
        npu_product: base.npu_product,
        driver_version_full: Some(sv),
        driver_version_revision: revision_of(raw),
        driver_version_major: if parts.len() >= 3 {
            Some(parts[0])
        } else {
            None
        },
        driver_version_minor: if parts.len() >= 3 {
            Some(parts[1])
        } else {
            None
        },
        driver_version_patch: if parts.len() >= 3 {
            Some(parts[2])
        } else {
            None
        },
    }
}

/// The record the sysfs walk yields: counted entries decide the device
/// fields, and the kernel-reported version — where the driver is installed —
/// enriches the record best-effort: a version that will not split into three
/// components still leaves the full version and revision set.
pub open spec fn spec_sysfs_features(ds: Seq<SysfsDevice>, kv: Option<Seq<char>>) -> Result<
    FeatureView,
    FeatureError,
> {
    match spec_collect_products(ds) {
        Err(e) => Err(e),
        Ok(ps) => match spec_base_view(ps) {
            Err(e) => Err(e),
            Ok(base) => match kv {
                None => Ok(base),
                Some(raw) => Ok(spec_apply_version(base, trim_spec(raw))),
            },
        },
    }
}

/// The record the daemon's answer yields: the listed devices decide the
/// device fields, the first identifier names product and family, and a
/// reported version must split into three components — here a version that
/// will not split is a hard error, unlike on the sysfs path.
pub open spec fn spec_daemon_features(ids: Seq<Seq<char>>, version: Option<Seq<char>>) -> Result<
    FeatureView,
    FeatureError,
> {
    if ids.len() == 0 {
        Ok(empty_view())
    } else {
        match product_of_id(ids[0]) {
            None => Err(FeatureError::UnknownDeviceId),
            Some(p) => match family_of(p) {
                None => Err(FeatureError::UnknownProductName),
                Some(f) => {
                    let base = device_base_view(ids.len() as u8, p, f);
                    match version {
                        None => Ok(base),
                        Some(raw) => if dot_split(semver_of(raw)).len() >= 3 {
                            Ok(spec_apply_version(base, raw))
                        } else {
                            Err(FeatureError::SemverSplit)
                        },
                    }
                },
            },
        }
    }
}

/// One full pass: the daemon's record where its collection succeeded, the
/// sysfs record otherwise — never a merge of the two.
pub open spec fn spec_collect_features(
    d: DaemonObservation,
    ds: Seq<SysfsDevice>,
    kv: Option<Seq<char>>,
) -> Result<FeatureView, FeatureError> {
    match d {
        DaemonObservation::Listed { dev_ids, driver_version } => {
            match spec_daemon_features(dev_ids.deep_view(), opt_view(driver_version)) {
                Ok(f) => Ok(f),
                Err(_) => spec_sysfs_features(ds, kv),
            }
        },
        _ => spec_sysfs_features(ds, kv),
    }
}

/// Whether a PCI entry's raw `vendor` attribute names the accelerator
/// vendor: its trimmed contents must read exactly `0x1eff`. Entries of other
/// vendors take no part in the walk.
pub fn vendor_matches(raw_vendor: &str) -> (r: bool)
    ensures
        r == (trim_spec(raw_vendor@) == "0x1eff"@),
{
    let t = trim_string(raw_vendor);
    crate::text::str_eq(t.as_str(), "0x1eff")
}

/// What one sysfs entry contributes, executably.
fn device_outcome(d: &SysfsDevice) -> (r: Result<Option<RBLNDeviceProduct>, FeatureError>)
    ensures
        r == spec_device_outcome(*d),
{
    match &d.sriov_numvfs {
        Some(s) => {
            let t = trim_string(s.as_str());
            match parse_u8(t.as_str()) {
                None => Err(FeatureError::InvalidNumber),
                Some(n) => {
                    if n != 0 {
                        Ok(None)
                    } else {
                        device_product(d)
                    }
                },
            }
        },
        None => device_product(d),
    }
}

/// The product a sysfs entry resolves to, executably.
fn device_product(d: &SysfsDevice) -> (r: Result<Option<RBLNDeviceProduct>, FeatureError>)
    ensures
        r == spec_device_product(*d),
{
    let t = trim_string(d.device_id.as_str());
    let id = strip_hex_prefix_str(t.as_str());
    match RBLNDeviceProduct::from_device_id(id.as_str()) {
        Ok(p) => Ok(Some(p)),
        Err(e) => Err(e),
    }
}

/// Fills the device half of a fresh record from a count and the first
/// counted product.
fn fill_device_fields(features: &mut RBLNFeatures, count: usize, p: &RBLNDeviceProduct) -> (r:
    Result<(), FeatureError>)
    requires
        old(features)@ == empty_view(),
    ensures
        r matches Ok(()) ==> family_of(*p) is Some && final(features)@ == device_base_view(
            count as u8,
            *p,
            family_of(*p).unwrap(),
        ),
        r matches Err(e) ==> family_of(*p) is None && e == FeatureError::UnknownProductName,
        r is Err ==> final(features)@ == old(features)@,
{
    let fam = match p.family() {
        Ok(f) => f,
        Err(e) => {
            return Err(e);
        },
    };
    features.npu_present = true;
    features.npu_count = Some(count as u8);
    features.npu_product = Some(p.to_feature_string());
    features.npu_family = Some(fam.name());
    Ok(())
}

/// Applies a raw version string to a record, best-effort.
fn apply_version(features: &mut RBLNFeatures, raw: &str) -> (r: Result<(), FeatureError>)
    requires
        old(features)@.driver_version_major is None,
        old(features)@.driver_version_minor is None,
        old(features)@.driver_version_patch is None,
    ensures
        final(features)@ == spec_apply_version(old(features)@, raw@),
        r is Ok <==> dot_split(semver_of(raw@)).len() >= 3,
        r matches Err(e) ==> e == FeatureError::SemverSplit,
{
    let (semver, revision) = parse_version(raw);
    let split = split_semver(semver.as_str());
    features.driver_version_full = Some(semver);
    features.driver_version_revision = revision;
    match split {
        Ok((major, minor, patch)) => {
            features.driver_version_major = Some(major);
            features.driver_version_minor = Some(minor);
            features.driver_version_patch = Some(patch);
            Ok(())
        },
        Err(e) => Err(e),
    }
}

/// Derives a record from the sysfs observations alone: the fallback source.
/// Discovery failures (an unreadable count, an unknown identifier) are hard;
/// everything about the driver version is best-effort.
pub fn sysfs_features(devices: &Vec<SysfsDevice>, kernel_version: &Option<String>) -> (r: Result<
    RBLNFeatures,
    FeatureError,
>)
    ensures
        res_view(r) == spec_sysfs_features(devices@, opt_view(*kernel_version)),
{
    let ghost all = devices@;
    let mut products: Vec<RBLNDeviceProduct> = Vec::new();
    let mut i: usize = 0;
    proof {
        assert(all.skip(0) =~= all);
        assert(Seq::<RBLNDeviceProduct>::empty() + spec_collect_products(all).unwrap()
            =~= spec_collect_products(all).unwrap());
    }
    while i < devices.len()
        invariant
            i <= devices.len(),
            all == devices@,
            spec_collect_products(all) == (match spec_collect_products(all.skip(i as int)) {
                Err(e) => Err::<Seq<RBLNDeviceProduct>, FeatureError>(e),
                Ok(rest) => Ok(products@ + rest),
            }),
        decreases devices.len() - i,
    {
        proof {
            assert(all.skip(i as int)[0] == all[i as int]);
            assert(all.skip(i as int).drop_first() =~= all.skip(i as int + 1));
        }
        match device_outcome(&devices[i]) {
            Err(e) => {
                return Err(e);
            },
            Ok(Some(p)) => {
                proof {
                    if spec_collect_products(all.skip(i as int + 1)) is Ok {
                        let rest = spec_collect_products(all.skip(i as int + 1)).unwrap();
                        assert(products@ + (seq![p] + rest) =~= products@.push(p) + rest);
                    }
                }
                products.push(p);
            },
            Ok(None) => {},
        }
        i += 1;
    }
    proof {
        assert(all.skip(devices@.len() as int) =~= Seq::<SysfsDevice>::empty());
        assert(spec_collect_products(Seq::<SysfsDevice>::empty())
            == Ok::<Seq<RBLNDeviceProduct>, FeatureError>(Seq::<RBLNDeviceProduct>::empty()));
        assert(products@ + Seq::<RBLNDeviceProduct>::empty() =~= products@);
        assert(spec_collect_products(all) == Ok::<Seq<RBLNDeviceProduct>, FeatureError>(products@));
    }
    let mut features = RBLNFeatures::new();
    if products.len() > 0 {
        let count = products.len();
        match fill_device_fields(&mut features, count, &products[0]) {
            Ok(()) => {},
            Err(e) => {
                return Err(e);
            },
        }
    }
    match kernel_version {
        None => Ok(features),
        Some(raw) => {
            let t = trim_string(raw.as_str());
            // A version that will not split is logged upstream and otherwise
            // ignored here: the record keeps what could be set.
            let _ = apply_version(&mut features, t.as_str());
            Ok(features)
        },
    }
}

/// Derives a record from the daemon's answer: the preferred source. Any
/// failure here means "daemon unusable" and the caller falls back to the
/// sysfs walk with a fresh record; partial daemon state is never kept.
pub fn daemon_features(dev_ids: &Vec<String>, driver_version: &Option<String>) -> (r: Result<
    RBLNFeatures,
    FeatureError,
>)
    ensures
        res_view(r) == spec_daemon_features(dev_ids.deep_view(), opt_view(*driver_version)),
{
    let mut features = RBLNFeatures::new();
    if dev_ids.len() == 0 {
        return Ok(features);
    }
    proof {
        assert(dev_ids.deep_view()[0] == dev_ids@[0]@);
        assert(dev_ids.deep_view().len() == dev_ids@.len());
    }
    let p = match RBLNDeviceProduct::from_device_id(dev_ids[0].as_str()) {
        Ok(p) => p,
        Err(e) => {
            return Err(e);
        },
    };
    let count = dev_ids.len();
    match fill_device_fields(&mut features, count, &p) {
        Ok(()) => {},
        Err(e) => {
            return Err(e);
        },
    }
    match driver_version {
        None => Ok(features),
        Some(raw) => {
            match apply_version(&mut features, raw.as_str()) {
                Ok(()) => Ok(features),
                Err(e) => Err(e),
            }
        },
    }
}

/// One collection pass, configured: where the daemon listens, where the
/// label file goes, and whether the expiry annotation is suppressed.
pub struct RBLNFeaturesCollector {
    pub rbln_daemon_url: String,
    pub output_file: String,
    pub no_timestamp: bool,
}

impl RBLNFeaturesCollector {
    pub fn new(rbln_daemon_url: String, output_file: String, no_timestamp: bool) -> (r: Self)
        ensures
            r.rbln_daemon_url@ == rbln_daemon_url@,
            r.output_file@ == output_file@,
            r.no_timestamp == no_timestamp,
    {
        Self { rbln_daemon_url, output_file, no_timestamp }
    }

    /// One full pass over the given observations: the daemon's record where
    /// its collection succeeded, else the record of the sysfs walk. Exactly
    /// one source's output is used, never a merge of both.
    pub fn collect_features(
        &self,
        daemon: &DaemonObservation,
        devices: &Vec<SysfsDevice>,
        kernel_version: &Option<String>,
    ) -> (r: Result<RBLNFeatures, FeatureError>)
        ensures
            res_view(r) == spec_collect_features(*daemon, devices@, opt_view(*kernel_version)),
    {
        match daemon {
            DaemonObservation::Listed { dev_ids, driver_version } => {
                match daemon_features(dev_ids, driver_version) {
                    Ok(f) => Ok(f),
                    Err(_) => sysfs_features(devices, kernel_version),
                }
            },
            _ => sysfs_features(devices, kernel_version),
        }
    }

    /// The text to publish: the serialized record, under an expiry
    /// annotation unless the configuration suppresses it. Never empty, so a
    /// successful pass always has something to write.
    pub fn render_output(&self, features: &RBLNFeatures, expiry: &Option<String>) -> (r: String)
        ensures
            r@ == spec_rendered(
                features@,
                if self.no_timestamp {
                    None
                } else {
                    opt_view(*expiry)
                },
            ),
            r@.len() >= 1,
    {
        let body = features.to_plain_text();
        if self.no_timestamp {
            return body;
        }
        match expiry {
            None => body,
            Some(ts) => {
                let mut out = "# +expiry-time=".to_owned();
                out.append(ts.as_str());
                out.append("\n");
                out.append(body.as_str());
                proof {
                    assert(out@ =~= "# +expiry-time="@ + ts@ + "\n"@ + spec_plain_text(
                        features@,
                    ));
                }
                out
            },
        }
    }
}

/// The hidden name the writer uses beside the final file while the new
/// contents go down.
pub fn temp_file_name(file_name: &str) -> (r: String)
    ensures
        r@ == "."@ + file_name@,
{
    let mut r = ".".to_owned();
    r.append(file_name);
    r
}

/// The temporary file never shadows the final one: its name always differs,
/// so a reader of the final path sees either the old contents or, after the
/// rename, the new — never a partial write.
pub proof fn lemma_temp_name_differs(name: Seq<char>)
    ensures
        "."@ + name != name,
{
    reveal_strlit(".");
    assert(("."@ + name).len() == name.len() + 1);
}

/// When the daemon is unreachable, its listing fails, or its collection
/// errors, the pass's record is exactly what the sysfs walk alone yields
/// over the same hardware state.
pub proof fn lemma_daemon_failure_falls_back(
    d: DaemonObservation,
    ds: Seq<SysfsDevice>,
    kv: Option<Seq<char>>,
)
    requires
        match d {
            DaemonObservation::Listed { dev_ids, driver_version } => spec_daemon_features(
                dev_ids.deep_view(),
                opt_view(driver_version),
            ) is Err,
            _ => true,
        },
    ensures
        spec_collect_features(d, ds, kv) == spec_sysfs_features(ds, kv),
{
}

/// With no vendor-matching PCI entries the record reports absence: presence
/// false, and neither count, family nor product set, whatever the driver
/// version says.
pub proof fn lemma_no_devices_reports_absent(kv: Option<Seq<char>>)
    ensures
        spec_sysfs_features(Seq::<SysfsDevice>::empty(), kv) is Ok,
        spec_sysfs_features(Seq::<SysfsDevice>::empty(), kv).unwrap().npu_present == false,
        spec_sysfs_features(Seq::<SysfsDevice>::empty(), kv).unwrap().npu_count is None,
        spec_sysfs_features(Seq::<SysfsDevice>::empty(), kv).unwrap().npu_family is None,
        spec_sysfs_features(Seq::<SysfsDevice>::empty(), kv).unwrap().npu_product is None,
{
    assert(spec_collect_products(Seq::<SysfsDevice>::empty())
        == Ok::<Seq<RBLNDeviceProduct>, FeatureError>(Seq::<RBLNDeviceProduct>::empty()));
}

/// Running the full pass twice over unchanged daemon and hardware state
/// gives byte-identical output except for the expiry timestamp line: under
/// either timestamp everything after the first line is the same, and with
/// the annotation suppressed the outputs are identical.
pub proof fn lemma_pass_idempotent(
    d: DaemonObservation,
    ds: Seq<SysfsDevice>,
    kv: Option<Seq<char>>,
    ts1: Seq<char>,
    ts2: Seq<char>,
)
    requires
        no_newline(ts1),
        no_newline(ts2),
        spec_collect_features(d, ds, kv) is Ok,
    ensures
        ({
            let f = spec_collect_features(d, ds, kv).unwrap();
            line_split(spec_rendered(f, Some(ts1))).unwrap().1 == line_split(
                spec_rendered(f, Some(ts2)),
            ).unwrap().1
        }),
        spec_rendered(spec_collect_features(d, ds, kv).unwrap(), None) == spec_plain_text(
            spec_collect_features(d, ds, kv).unwrap(),
        ),
{
    lemma_idempotent_but_for_expiry(spec_collect_features(d, ds, kv).unwrap(), ts1, ts2);
}

/// How many entries of the walk are counted: those contributing a product,
/// i.e. not excluded by the virtualization filter.
pub open spec fn spec_included_count(ds: Seq<SysfsDevice>) -> int
    decreases ds.len(),
{
    if ds.len() == 0 {
        0
    } else {
        (match spec_device_outcome(ds[0]) {
            Ok(Some(_)) => 1int,
            _ => 0int,
        }) + spec_included_count(ds.drop_first())
    }
}

proof fn lemma_collected_count(ds: Seq<SysfsDevice>)
    requires
        spec_collect_products(ds) is Ok,
    ensures
        spec_collect_products(ds).unwrap().len() == spec_included_count(ds),
    decreases ds.len(),
{
    if ds.len() > 0 {
        lemma_collected_count(ds.drop_first());
    }
}

/// The published device count is the number of counted entries — those a
/// nonzero virtual-function count did not exclude — at the width of the u8
/// field the record stores it in.
pub proof fn lemma_count_is_included_entries(ds: Seq<SysfsDevice>, kv: Option<Seq<char>>)
    requires
        spec_sysfs_features(ds, kv) is Ok,
    ensures
        spec_included_count(ds) == 0 ==> spec_sysfs_features(ds, kv).unwrap().npu_count is None,
        spec_included_count(ds) > 0 ==> spec_sysfs_features(ds, kv).unwrap().npu_count == Some(
            (spec_included_count(ds) as u8),
        ),
{
    lemma_collected_count(ds);
}

/// The virtualization filter: an entry whose virtual-function count reads
/// nonzero contributes nothing to the walk; one whose count reads zero, or
/// which has no such attribute, contributes its product.
pub proof fn lemma_sriov_filter(d: SysfsDevice)
    ensures
        (match d.sriov_numvfs {
            Some(s) => u8_parse_ok(trim_spec(s@)) && dec_val(trim_spec(s@)) != 0,
            None => false,
        }) ==> spec_device_outcome(d) == Ok::<Option<RBLNDeviceProduct>, FeatureError>(None),
        (match d.sriov_numvfs {
            Some(s) => u8_parse_ok(trim_spec(s@)) && dec_val(trim_spec(s@)) == 0,
            None => true,
        }) ==> spec_device_outcome(d) == spec_device_product(d),
{
}

} // verus!
