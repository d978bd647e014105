//! What instance a queued job gets: the job's labels choose the instance type,
//! the architecture, the size of the root volume and the purchase option.

use crate::text::{has_prefix, has_suffix, parse_i32, spec_parse_i32, starts_with, ends_with, str_eq, strip_prefix, strip_suffix};
use crate::webhook::label_views;
use vstd::prelude::*;
use vstd::string::*;

verus! {

/// Label that selects an x86-64 instance.
pub const X64_LABEL: &'static str = "X64";

/// Prefix of a label that names the instance type (`EC2-m7g.xlarge`).
pub const INSTANCE_TYPE_PREFIX: &'static str = "EC2-";

/// Label that asks for a one-time Spot instance.
pub const SPOT_LABEL: &'static str = "EC2-Spot";

/// Prefix of a label that gives the root volume's size (`EBS-30GB`).
pub const VOLUME_PREFIX: &'static str = "EBS-";

/// Suffix of a label that gives the root volume's size.
pub const VOLUME_SUFFIX: &'static str = "GB";

/// Instance type when no label names one.
pub const DEFAULT_INSTANCE_TYPE: &'static str = "m7g.large";

/// Root volume size in GiB when no label gives one.
pub const DEFAULT_VOLUME_SIZE: i32 = 14;

/// Processor architecture of the instance, which selects its launch template.
#[derive(Debug, Clone, Copy, PartialEq, Eq, Structural)]
pub enum Architecture {
    Arm64,
    X64,
}

impl Architecture {
    /// Name of the environment variable that holds the launch template's id.
    pub fn launch_template_variable(&self) -> (r: &'static str)
        ensures
            r@ == spec_launch_template_variable(*self),
    {
        match self {
            Architecture::Arm64 => "ARM64_LAUNCH_TEMPLATE_ID",
            Architecture::X64 => "X64_LAUNCH_TEMPLATE_ID",
        }
    }
}

/// Name of the environment variable that holds the launch template's id.
pub open spec fn spec_launch_template_variable(a: Architecture) -> Seq<char> {
    match a {
        Architecture::Arm64 => "ARM64_LAUNCH_TEMPLATE_ID"@,
        Architecture::X64 => "X64_LAUNCH_TEMPLATE_ID"@,
    }
}

/// The instance a job asks for.
#[derive(Debug)]
pub struct RunConfig {
    /// EC2 instance type, such as `m7g.large`.
    pub instance_type: String,
    pub architecture: Architecture,
    /// Size of the root volume in GiB.
    pub volume_size: i32,
    /// A one-time Spot instance rather than an on-demand one.
    pub spot: bool,
}

/// A `RunConfig` with its instance type as characters.
pub struct RunConfigModel {
    pub instance_type: Seq<char>,
    pub architecture: Architecture,
    pub volume_size: i32,
    pub spot: bool,
}

impl View for RunConfig {
    type V = RunConfigModel;

    open spec fn view(&self) -> RunConfigModel {
        RunConfigModel {
            instance_type: self.instance_type@,
            architecture: self.architecture,
            volume_size: self.volume_size,
            spot: self.spot,
        }
    }
}

/// The instance a job without labels gets.
pub open spec fn default_run_config() -> RunConfigModel {
    RunConfigModel {
        instance_type: DEFAULT_INSTANCE_TYPE@,
        architecture: Architecture::Arm64,
        volume_size: DEFAULT_VOLUME_SIZE,
        spot: false,
    }
}

/// A label that gives the root volume's size.
pub open spec fn is_volume_label(label: Seq<char>) -> bool {
    has_prefix(label, VOLUME_PREFIX@) && has_suffix(label, VOLUME_SUFFIX@)
}

/// The size text of a volume label: what stands between `EBS-` and `GB`.
pub open spec fn volume_text(label: Seq<char>) -> Seq<char> {
    label.subrange(VOLUME_PREFIX@.len() as int, label.len() - VOLUME_SUFFIX@.len())
}

/// The effect of one label on the instance: nothing when a volume label's
/// size is not an `i32`.
pub open spec fn apply_label(cfg: RunConfigModel, label: Seq<char>) -> Option<RunConfigModel> {
    if label == X64_LABEL@ {
        Some(RunConfigModel { architecture: Architecture::X64, ..cfg })
    } else if has_prefix(label, INSTANCE_TYPE_PREFIX@) && label != SPOT_LABEL@ {
        Some(
            RunConfigModel {
                instance_type: label.skip(INSTANCE_TYPE_PREFIX@.len() as int),
                ..cfg
            },
        )
    } else if is_volume_label(label) {
        match spec_parse_i32(volume_text(label)) {
            Some(size) => Some(RunConfigModel { volume_size: size, ..cfg }),
            None => None,
        }
    } else if label == SPOT_LABEL@ {
        Some(RunConfigModel { spot: true, ..cfg })
    } else {
        Some(cfg)
    }
}

/// The instance that a job with these labels gets, the labels taking effect
/// in order; nothing when some volume label is malformed.
pub open spec fn spec_run_config(labels: Seq<Seq<char>>) -> Option<RunConfigModel>
    decreases labels.len(),
{
    if labels.len() == 0 {
        Some(default_run_config())
    } else {
        match spec_run_config(labels.drop_last()) {
            Some(cfg) => apply_label(cfg, labels.last()),
            None => None,
        }
    }
}

/// A volume label whose size is not an `i32`.
#[derive(Debug, Clone, Copy, PartialEq, Eq, Structural)]
pub struct InvalidVolumeLabel;

/// Once some labels give nothing, more labels give nothing.
proof fn lemma_run_config_failure_persists(labels: Seq<Seq<char>>, k: int)
    requires
        0 <= k <= labels.len(),
        spec_run_config(labels.take(k)) is None,
    ensures
        spec_run_config(labels) is None,
    decreases labels.len(),
{
    if k == labels.len() {
        assert(labels.take(k) =~= labels);
    } else {
        assert(labels.drop_last().take(k) =~= labels.take(k));
        lemma_run_config_failure_persists(labels.drop_last(), k);
    }
}

/// A label that begins with `EBS-` and ends with `GB` has at least six
/// characters.
proof fn lemma_volume_label_length(label: Seq<char>)
    requires
        is_volume_label(label),
    ensures
        label.len() >= VOLUME_PREFIX@.len() + VOLUME_SUFFIX@.len(),
{
    reveal_strlit("EBS-");
    reveal_strlit("GB");
    if label.len() == 4 {
        assert(label.subrange(2, 4)[0] == label.subrange(0, 4)[2]);
    } else if label.len() == 5 {
        assert(label.subrange(3, 5)[0] == label.subrange(0, 4)[3]);
    }
}

/// The size of the root volume that a volume label gives.
fn volume_size_of(label: &str) -> (r: Option<i32>)
    requires
        is_volume_label(label@),
    ensures
        r == spec_parse_i32(volume_text(label@)),
{
    proof {
        lemma_volume_label_length(label@);
    }
    let rest = strip_prefix(label, VOLUME_PREFIX);
    match rest {
        Some(rest) => {
            assert(has_suffix(rest@, VOLUME_SUFFIX@)) by {
                assert(rest@.subrange(rest@.len() - VOLUME_SUFFIX@.len(), rest@.len() as int)
                    =~= label@.subrange(
                    label@.len() - VOLUME_SUFFIX@.len(),
                    label@.len() as int,
                ));
            }
            match strip_suffix(rest, VOLUME_SUFFIX) {
                Some(text) => {
                    assert(text@ =~= volume_text(label@));
                    parse_i32(text)
                },
                None => None,
            }
        },
        None => None,
    }
}

/// The instance a job with these labels gets, or the refusal of a volume
/// label whose size is not an `i32`.
pub fn run_config(labels: &Vec<String>) -> (r: Result<RunConfig, InvalidVolumeLabel>)
    ensures
        match spec_run_config(label_views(labels@)) {
            Some(model) => r matches Ok(cfg) && cfg@ == model,
            None => r is Err,
        },
{
    let ghost views = label_views(labels@);
    let mut cfg = RunConfig {
        instance_type: String::from_str(DEFAULT_INSTANCE_TYPE),
        architecture: Architecture::Arm64,
        volume_size: DEFAULT_VOLUME_SIZE,
        spot: false,
    };
    assert(views.take(0) =~= Seq::<Seq<char>>::empty());
    let n = labels.len();
    let mut i: usize = 0;
    while i < n
        invariant
            n == labels@.len(),
            views == label_views(labels@),
            i <= n,
            spec_run_config(views.take(i as int)) == Some(cfg@),
        decreases n - i,
    {
        let label: &str = labels[i].as_str();
        assert(label@ == views[i as int]);
        assert(views.take(i + 1).drop_last() =~= views.take(i as int));
        assert(views.take(i + 1).last() == views[i as int]);
        if str_eq(label, X64_LABEL) {
            cfg.architecture = Architecture::X64;
        } else if starts_with(label, INSTANCE_TYPE_PREFIX) && !str_eq(label, SPOT_LABEL) {
            match strip_prefix(label, INSTANCE_TYPE_PREFIX) {
                Some(name) => {
                    cfg.instance_type = String::from_str(name);
                },
                None => {},
            }
        } else if starts_with(label, VOLUME_PREFIX) && ends_with(label, VOLUME_SUFFIX) {
            match volume_size_of(label) {
                Some(size) => {
                    cfg.volume_size = size;
                },
                None => {
                    proof {
                        lemma_run_config_failure_persists(views, i + 1);
                    }
                    return Err(InvalidVolumeLabel);
                },
            }
        } else if str_eq(label, SPOT_LABEL) {
            cfg.spot = true;
        }
        i = i + 1;
    }
    assert(views.take(n as int) =~= views);
    Ok(cfg)
}

/// With no labels, a job gets an on-demand `m7g.large` Arm64 instance with a
/// 14 GiB root volume.
pub proof fn lemma_default_run_config()
    ensures
        spec_run_config(Seq::<Seq<char>>::empty()) == Some(default_run_config()),
{
}

/// `X64` selects the x86-64 launch template and changes nothing else.
pub proof fn lemma_x64_label(labels: Seq<Seq<char>>, cfg: RunConfigModel)
    requires
        spec_run_config(labels) == Some(cfg),
    ensures
        spec_run_config(labels.push(X64_LABEL@)) == Some(
            RunConfigModel { architecture: Architecture::X64, ..cfg },
        ),
{
    assert(labels.push(X64_LABEL@).drop_last() =~= labels);
}

/// `EC2-Spot` asks for a Spot instance and is not taken for an instance type.
pub proof fn lemma_spot_label(labels: Seq<Seq<char>>, cfg: RunConfigModel)
    requires
        spec_run_config(labels) == Some(cfg),
    ensures
        spec_run_config(labels.push(SPOT_LABEL@)) == Some(RunConfigModel { spot: true, ..cfg }),
{
    reveal_strlit("EC2-Spot");
    reveal_strlit("X64");
    reveal_strlit("EBS-");
    assert(labels.push(SPOT_LABEL@).drop_last() =~= labels);
    assert(SPOT_LABEL@ != X64_LABEL@) by {
        assert(SPOT_LABEL@.len() != X64_LABEL@.len());
    }
    assert(!has_prefix(SPOT_LABEL@, VOLUME_PREFIX@)) by {
        assert(SPOT_LABEL@.subrange(0, 4)[1] != VOLUME_PREFIX@[1]);
    }
}

/// A label `EC2-<type>` other than `EC2-Spot` sets the instance type to
/// `<type>` and changes nothing else; the last such label wins.
pub proof fn lemma_instance_type_label(labels: Seq<Seq<char>>, cfg: RunConfigModel, instance_type: Seq<char>)
    requires
        spec_run_config(labels) == Some(cfg),
        INSTANCE_TYPE_PREFIX@ + instance_type != SPOT_LABEL@,
    ensures
        spec_run_config(labels.push(INSTANCE_TYPE_PREFIX@ + instance_type)) == Some(
            RunConfigModel { instance_type, ..cfg },
        ),
{
    let label = INSTANCE_TYPE_PREFIX@ + instance_type;
    reveal_strlit("EC2-");
    reveal_strlit("X64");
    assert(labels.push(label).drop_last() =~= labels);
    assert(label.subrange(0, 4) =~= INSTANCE_TYPE_PREFIX@);
    assert(label.skip(4) =~= instance_type);
    assert(label != X64_LABEL@) by {
        if label.len() == X64_LABEL@.len() {
            assert(label[0] != X64_LABEL@[0]);
        }
    }
}

/// A label that is not `X64` and names neither an instance type nor a volume
/// size, such as the runner label itself, changes nothing.
pub proof fn lemma_other_label_ignored(labels: Seq<Seq<char>>, cfg: RunConfigModel, label: Seq<char>)
    requires
        spec_run_config(labels) == Some(cfg),
        label != X64_LABEL@,
        !has_prefix(label, INSTANCE_TYPE_PREFIX@),
        !is_volume_label(label),
    ensures
        spec_run_config(labels.push(label)) == Some(cfg),
{
    reveal_strlit("EC2-Spot");
    reveal_strlit("EC2-");
    assert(labels.push(label).drop_last() =~= labels);
    if label == SPOT_LABEL@ {
        assert(SPOT_LABEL@.subrange(0, 4) =~= INSTANCE_TYPE_PREFIX@);
    }
}

/// A volume label with a size that is not an `i32` makes the whole label set
/// invalid, whatever labels follow.
pub proof fn lemma_invalid_volume_label(labels: Seq<Seq<char>>, i: int)
    requires
        0 <= i < labels.len(),
        is_volume_label(labels[i]),
        spec_parse_i32(volume_text(labels[i])) is None,
    ensures
        spec_run_config(labels) is None,
{
    let prefix = labels.take(i + 1);
    assert(prefix.drop_last() =~= labels.take(i));
    assert(prefix.last() == labels[i]);
    reveal_strlit("X64");
    reveal_strlit("EC2-");
    reveal_strlit("EBS-");
    reveal_strlit("EC2-Spot");
    let label = labels[i];
    assert(label != X64_LABEL@) by {
        if label == X64_LABEL@ {
            assert(label.subrange(0, 4) == VOLUME_PREFIX@);
        }
    }
    assert(!has_prefix(label, INSTANCE_TYPE_PREFIX@)) by {
        assert(label.subrange(0, 4)[1] == VOLUME_PREFIX@[1]);
    }
    if spec_run_config(labels.take(i)) is Some {
        assert(spec_run_config(prefix) is None);
    }
    lemma_run_config_failure_persists(labels, i + 1);
}

/// A volume label whose size parses as `n` sets the root volume to `n` GiB
/// and changes nothing else: the instance type, the architecture and the
/// Spot choice that earlier labels made stay.
pub proof fn lemma_volume_label(labels: Seq<Seq<char>>, cfg: RunConfigModel, label: Seq<char>, n: i32)
    requires
        spec_run_config(labels) == Some(cfg),
        is_volume_label(label),
        spec_parse_i32(volume_text(label)) == Some(n),
    ensures
        spec_run_config(labels.push(label)) == Some(RunConfigModel { volume_size: n, ..cfg }),
{
    reveal_strlit("X64");
    reveal_strlit("EC2-");
    reveal_strlit("EBS-");
    assert(labels.push(label).drop_last() =~= labels);
    assert(label != X64_LABEL@) by {
        if label == X64_LABEL@ {
            assert(label.subrange(0, 4) == VOLUME_PREFIX@);
        }
    }
    assert(!has_prefix(label, INSTANCE_TYPE_PREFIX@)) by {
        assert(label.subrange(0, 4)[1] == VOLUME_PREFIX@[1]);
    }
}

} // verus!
