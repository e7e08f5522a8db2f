//! Launch settings for `llama-server`: defaults derived from a model's
//! metadata and the machine, resource estimates, and the command line.
//!
//! Sizes are in MiB. Where layer shares of the model are computed, the
//! quotients are exact rational quotients rounded down.
use crate::gguf::{GgufInfo, GgufInfoView};
use crate::hwdetect::{first_gpu_vram, first_vram, HardwareInfo};
use crate::text::{decimal, str_equals, u64_to_string};
use vstd::prelude::*;
use vstd::string::*;

verus! {

/// MiB of GPU memory kept free for the runtime's own use.
pub const VRAM_OVERHEAD_MB: u64 = 1024;

/// The largest context size chosen by default.
pub const MAX_DEFAULT_CTX: u64 = 128000;

/// Bytes in a MiB.
pub const MIB: u64 = 1048576;

/// The settings `llama-server` is launched with.
#[derive(Debug, Clone)]
pub struct LaunchConfig {
    pub model_path: String,
    pub mmproj_path: String,
    pub host: String,
    pub port: u16,
    pub ctx_size: u64,
    pub gpu_layers: u64,
    pub threads: usize,
    pub threads_batch: usize,
    pub batch_size: u64,
    pub ubatch_size: u64,
    pub flash_attn: String,
    pub cache_type_k: String,
    pub cache_type_v: String,
    pub mlock: bool,
    pub split_mode: String,
}

/// The mathematical model of a [`LaunchConfig`].
pub struct LaunchConfigView {
    pub model_path: Seq<char>,
    pub mmproj_path: Seq<char>,
    pub host: Seq<char>,
    pub port: u16,
    pub ctx_size: u64,
    pub gpu_layers: u64,
    pub threads: usize,
    pub threads_batch: usize,
    pub batch_size: u64,
    pub ubatch_size: u64,
    pub flash_attn: Seq<char>,
    pub cache_type_k: Seq<char>,
    pub cache_type_v: Seq<char>,
    pub mlock: bool,
    pub split_mode: Seq<char>,
}

impl View for LaunchConfig {
    type V = LaunchConfigView;

    open spec fn view(&self) -> LaunchConfigView {
        LaunchConfigView {
            model_path: self.model_path@,
            mmproj_path: self.mmproj_path@,
            host: self.host@,
            port: self.port,
            ctx_size: self.ctx_size,
            gpu_layers: self.gpu_layers,
            threads: self.threads,
            threads_batch: self.threads_batch,
            batch_size: self.batch_size,
            ubatch_size: self.ubatch_size,
            flash_attn: self.flash_attn@,
            cache_type_k: self.cache_type_k@,
            cache_type_v: self.cache_type_v@,
            mlock: self.mlock,
            split_mode: self.split_mode@,
        }
    }
}

/// The settings before any model is known.
pub open spec fn default_config() -> LaunchConfigView {
    LaunchConfigView {
        model_path: Seq::empty(),
        mmproj_path: Seq::empty(),
        host: "127.0.0.1"@,
        port: 8080,
        ctx_size: 4096,
        gpu_layers: 0,
        threads: 4,
        threads_batch: 4,
        batch_size: 2048,
        ubatch_size: 512,
        flash_attn: "auto"@,
        cache_type_k: "q8_0"@,
        cache_type_v: "q8_0"@,
        mlock: false,
        split_mode: Seq::empty(),
    }
}

impl Default for LaunchConfig {
    fn default() -> (r: Self)
        ensures
            r@ == default_config(),
    {
        LaunchConfig {
            model_path: String::new(),
            mmproj_path: String::new(),
            host: String::from_str("127.0.0.1"),
            port: 8080,
            ctx_size: 4096,
            gpu_layers: 0,
            threads: 4,
            threads_batch: 4,
            batch_size: 2048,
            ubatch_size: 512,
            flash_attn: String::from_str("auto"),
            cache_type_k: String::from_str("q8_0"),
            cache_type_v: String::from_str("q8_0"),
            mlock: false,
            split_mode: String::new(),
        }
    }
}

/// Estimated memory use of a launch.
#[derive(Debug, Clone, Copy)]
pub struct ResourceEstimate {
    pub model_size_mb: u64,
    pub kv_cache_mb: u64,
    pub overhead_mb: u64,
    pub total_vram_mb: u64,
    pub total_ram_mb: u64,
    pub gpu_layers: u64,
    pub total_layers: u64,
    pub fits_vram: bool,
    pub fits_ram: bool,
}

/// The model file's size in whole MiB.
pub open spec fn model_mb(info: GgufInfoView) -> u64 {
    info.file_size / MIB
}

/// Layers the KV cache spans: the block count, at least 1.
pub open spec fn kv_layers(info: GgufInfoView) -> u64 {
    if info.block_count > 1 {
        info.block_count
    } else {
        1
    }
}

/// KV heads: `head_count_kv`, else `head_count`, at least 1.
pub open spec fn kv_heads(info: GgufInfoView) -> u64 {
    let h = if info.head_count_kv > 0 {
        info.head_count_kv
    } else {
        info.head_count
    };
    if h > 1 {
        h
    } else {
        1
    }
}

/// Dimension of one head: embedding length over head count, else 128.
pub open spec fn head_dim(info: GgufInfoView) -> u64 {
    if info.head_count > 0 && info.embedding_length > 0 {
        info.embedding_length / info.head_count
    } else {
        128
    }
}

/// Bytes per cached element: 2 for `f16`, 1 for every other cache type.
pub open spec fn cache_elem_bytes(cache_type: Seq<char>) -> u64 {
    if cache_type == "f16"@ {
        2
    } else {
        1
    }
}

/// Whether every partial product of the KV cache size fits in a `u64`.
pub open spec fn kv_cache_fits(ctx_size: u64, info: GgufInfoView, cache_type: Seq<char>) -> bool {
    let a = 2 * kv_layers(info);
    let b = a * kv_heads(info);
    let c = b * head_dim(info);
    let d = c * ctx_size;
    let e = d * cache_elem_bytes(cache_type);
    &&& a <= u64::MAX
    &&& b <= u64::MAX
    &&& c <= u64::MAX
    &&& d <= u64::MAX
    &&& e <= u64::MAX
}

/// KV cache size in MiB: keys and values for every layer, head, head
/// dimension and context position.
pub open spec fn kv_cache_mb(ctx_size: u64, info: GgufInfoView, cache_type: Seq<char>) -> int {
    2 * kv_layers(info) * kv_heads(info) * head_dim(info) * ctx_size * cache_elem_bytes(cache_type)
        / (MIB as int)
}

/// The KV cache size in MiB for a context size, model and cache type.
pub fn estimate_kv_cache(ctx_size: u64, info: &GgufInfo, cache_type: &str) -> (r: u64)
    requires
        kv_cache_fits(ctx_size, info@, cache_type@),
    ensures
        r == kv_cache_mb(ctx_size, info@, cache_type@),
{
    let n_layers: u64 = if info.block_count > 1 {
        info.block_count
    } else {
        1
    };
    let h: u64 = if info.head_count_kv > 0 {
        info.head_count_kv
    } else {
        info.head_count
    };
    let n_kv_heads: u64 = if h > 1 {
        h
    } else {
        1
    };
    let head_dim: u64 = if info.head_count > 0 && info.embedding_length > 0 {
        info.embedding_length / info.head_count
    } else {
        128
    };
    let bytes_per_element: u64 = if str_equals(cache_type, "f16") {
        2
    } else {
        1
    };
    2 * n_layers * n_kv_heads * head_dim * ctx_size * bytes_per_element / MIB
}

/// The context size: a positive override, else the model's context length
/// when positive, else 4096; at most 128000.
pub open spec fn chosen_ctx(info: GgufInfoView, ov: Option<LaunchConfigView>) -> u64 {
    let base = if ov is Some && ov->0.ctx_size > 0 {
        ov->0.ctx_size
    } else if info.context_length > 0 {
        info.context_length
    } else {
        4096
    };
    if base < MAX_DEFAULT_CTX {
        base
    } else {
        MAX_DEFAULT_CTX
    }
}

/// The cache type the KV estimate is made for: the override's key cache
/// type, else `q8_0`.
pub open spec fn chosen_cache_type(ov: Option<LaunchConfigView>) -> Seq<char> {
    match ov {
        Some(o) => o.cache_type_k,
        None => "q8_0"@,
    }
}

/// GPU layers chosen from the hardware: the layers whose share of the model
/// fits in the first adapter's memory less the overhead and the KV cache.
/// A model of size 0 fits whole. The count is exact: the largest number of
/// layers that fits, with no rounding of the per-layer size.
pub open spec fn auto_gpu_layers(vram: u64, kv: int, model: u64, layers: u64) -> u64 {
    if vram == 0 {
        0
    } else {
        let usable: int = if vram > VRAM_OVERHEAD_MB {
            vram - VRAM_OVERHEAD_MB
        } else {
            0
        };
        if usable <= kv {
            0
        } else if layers == 0 {
            0
        } else if model == 0 {
            layers
        } else {
            let fit = (usable - kv) * layers / (model as int);
            if fit < layers {
                fit as u64
            } else {
                layers
            }
        }
    }
}

/// The default settings for a model on a machine, with the overrides'
/// values where they are set (positive, for the counts that use 0 as unset).
pub open spec fn computed_config(
    info: GgufInfoView,
    hw: HardwareInfo,
    ov: Option<LaunchConfigView>,
) -> LaunchConfigView {
    let m = model_mb(info);
    let ctx = chosen_ctx(info, ov);
    let kv = kv_cache_mb(ctx, info, chosen_cache_type(ov));
    let vram = first_vram(hw);
    let has_gpu = vram > 0;
    LaunchConfigView {
        model_path: match ov {
            Some(o) => o.model_path,
            None => Seq::empty(),
        },
        mmproj_path: match ov {
            Some(o) => o.mmproj_path,
            None => Seq::empty(),
        },
        host: match ov {
            Some(o) => o.host,
            None => "127.0.0.1"@,
        },
        port: if ov is Some && ov->0.port > 0 {
            ov->0.port
        } else {
            8080
        },
        ctx_size: ctx,
        gpu_layers: if ov is Some && ov->0.gpu_layers > 0 {
            ov->0.gpu_layers
        } else {
            auto_gpu_layers(vram, kv, m, info.block_count)
        },
        threads: if ov is Some && ov->0.threads > 0 {
            ov->0.threads
        } else if hw.physical_cores > 1 {
            hw.physical_cores
        } else {
            1
        },
        threads_batch: if ov is Some && ov->0.threads_batch > 0 {
            ov->0.threads_batch
        } else if hw.logical_cores > 1 {
            hw.logical_cores
        } else {
            1
        },
        batch_size: match ov {
            Some(o) => o.batch_size,
            None => 2048,
        },
        ubatch_size: match ov {
            Some(o) => o.ubatch_size,
            None => 512,
        },
        flash_attn: match ov {
            Some(o) => o.flash_attn,
            None => if hw.has_nvidia && has_gpu && info.architecture == "llama"@ {
                "auto"@
            } else {
                "off"@
            },
        },
        cache_type_k: match ov {
            Some(o) => o.cache_type_k,
            None => "q8_0"@,
        },
        cache_type_v: match ov {
            Some(o) => o.cache_type_v,
            None => "q8_0"@,
        },
        mlock: match ov {
            Some(o) => o.mlock,
            None => hw.available_ram_mb > m * 3 / 2,
        },
        split_mode: match ov {
            Some(o) => o.split_mode,
            None => Seq::empty(),
        },
    }
}

/// The model of an optional borrowed configuration.
pub open spec fn opt_config(ov: Option<&LaunchConfig>) -> Option<LaunchConfigView> {
    match ov {
        Some(o) => Some(o@),
        None => None,
    }
}

/// Whether the KV estimate that [`compute`] makes stays within `u64`.
pub open spec fn compute_fits(info: GgufInfoView, ov: Option<LaunchConfigView>) -> bool {
    kv_cache_fits(chosen_ctx(info, ov), info, chosen_cache_type(ov))
}

fn auto_layers(vram_mb: u64, kv_cache_mb: u64, model_size_mb: u64, total_layers: u64) -> (r: u64)
    ensures
        r == auto_gpu_layers(vram_mb, kv_cache_mb as int, model_size_mb, total_layers),
{
    if vram_mb == 0 {
        return 0;
    }
    let usable: u64 = vram_mb.saturating_sub(VRAM_OVERHEAD_MB);
    if usable <= kv_cache_mb {
        return 0;
    }
    if total_layers == 0 {
        return 0;
    }
    if model_size_mb == 0 {
        return total_layers;
    }
    let avail: u128 = (usable - kv_cache_mb) as u128;
    let tl: u128 = total_layers as u128;
    assert(avail * tl <= u128::MAX) by (nonlinear_arith)
        requires
            avail <= u64::MAX,
            tl <= u64::MAX,
    ;
    let prod: u128 = avail * tl;
    let fit: u128 = prod / (model_size_mb as u128);
    if fit < total_layers as u128 {
        fit as u64
    } else {
        total_layers
    }
}

/// The launch settings for a model on a machine. Where `overrides` is
/// given, its values are kept; its context size, GPU layers, thread counts
/// and port are kept only when positive, and the defaults stand in for 0.
pub fn compute(info: &GgufInfo, hw: &HardwareInfo, overrides: Option<&LaunchConfig>) -> (r:
    LaunchConfig)
    requires
        compute_fits(info@, opt_config(overrides)),
    ensures
        r@ == computed_config(info@, *hw, opt_config(overrides)),
{
    let total_layers = info.block_count;
    let model_size_mb = info.file_size / MIB;
    let base_ctx: u64 = match overrides {
        Some(o) if o.ctx_size > 0 => o.ctx_size,
        _ => if info.context_length > 0 {
            info.context_length
        } else {
            4096
        },
    };
    let ctx_size: u64 = if base_ctx < MAX_DEFAULT_CTX {
        base_ctx
    } else {
        MAX_DEFAULT_CTX
    };
    let kv_cache_mb = match overrides {
        Some(o) => estimate_kv_cache(ctx_size, info, o.cache_type_k.as_str()),
        None => {
            proof {
                reveal_strlit("q8_0");
            }
            estimate_kv_cache(ctx_size, info, "q8_0")
        },
    };
    let vram_mb = first_gpu_vram(hw);
    let has_gpu = vram_mb > 0;
    let gpu_layers: u64 = match overrides {
        Some(o) if o.gpu_layers > 0 => o.gpu_layers,
        _ => auto_layers(vram_mb, kv_cache_mb, model_size_mb, total_layers),
    };
    let threads: usize = match overrides {
        Some(o) if o.threads > 0 => o.threads,
        _ => if hw.physical_cores > 1 {
            hw.physical_cores
        } else {
            1
        },
    };
    let threads_batch: usize = match overrides {
        Some(o) if o.threads_batch > 0 => o.threads_batch,
        _ => if hw.logical_cores > 1 {
            hw.logical_cores
        } else {
            1
        },
    };
    let batch_size: u64 = match overrides {
        Some(o) => o.batch_size,
        None => 2048,
    };
    let ubatch_size: u64 = match overrides {
        Some(o) => o.ubatch_size,
        None => 512,
    };
    let flash_attn = match overrides {
        Some(o) => o.flash_attn.clone(),
        None => if hw.has_nvidia && has_gpu && str_equals(info.architecture.as_str(), "llama") {
            String::from_str("auto")
        } else {
            String::from_str("off")
        },
    };
    let cache_type_k = match overrides {
        Some(o) => o.cache_type_k.clone(),
        None => String::from_str("q8_0"),
    };
    let cache_type_v = match overrides {
        Some(o) => o.cache_type_v.clone(),
        None => String::from_str("q8_0"),
    };
    let mlock = match overrides {
        Some(o) => o.mlock,
        None => hw.available_ram_mb > model_size_mb * 3 / 2,
    };
    let host = match overrides {
        Some(o) => o.host.clone(),
        None => String::from_str("127.0.0.1"),
    };
    let port: u16 = match overrides {
        Some(o) if o.port > 0 => o.port,
        _ => 8080,
    };
    let model_path = match overrides {
        Some(o) => o.model_path.clone(),
        None => String::new(),
    };
    let mmproj_path = match overrides {
        Some(o) => o.mmproj_path.clone(),
        None => String::new(),
    };
    let split_mode = match overrides {
        Some(o) => o.split_mode.clone(),
        None => String::new(),
    };
    LaunchConfig {
        model_path,
        mmproj_path,
        host,
        port,
        ctx_size,
        gpu_layers,
        threads,
        threads_batch,
        batch_size,
        ubatch_size,
        flash_attn,
        cache_type_k,
        cache_type_v,
        mlock,
        split_mode,
    }
}

/// MiB of the model placed on the GPU: the share of `gpu_layers` among
/// `layers`, rounded down and capped at `u64::MAX`; 0 without layers. The
/// share is the exact integer floor of `model * gpu_layers / layers`; a
/// computation in double precision would round differently once the product
/// passes 2^53.
pub open spec fn gpu_share_mb(model: u64, gpu_layers: u64, layers: u64) -> u64 {
    if layers > 0 {
        let share = model * gpu_layers / (layers as int);
        if share <= u64::MAX {
            share as u64
        } else {
            u64::MAX
        }
    } else {
        0
    }
}

/// The memory estimate for a launch.
pub open spec fn estimated(info: GgufInfoView, c: LaunchConfigView, hw: HardwareInfo) -> ResourceEstimate {
    let m = model_mb(info);
    let kv = kv_cache_mb(c.ctx_size, info, c.cache_type_k);
    let gpu_model = gpu_share_mb(m, c.gpu_layers, info.block_count);
    let cpu_model: int = if m > gpu_model {
        m - gpu_model
    } else {
        0
    };
    let total_vram: int = if c.gpu_layers > 0 {
        gpu_model + kv + VRAM_OVERHEAD_MB
    } else {
        0
    };
    let total_ram: int = cpu_model + if c.gpu_layers == 0 {
        kv
    } else {
        0
    };
    ResourceEstimate {
        model_size_mb: m,
        kv_cache_mb: kv as u64,
        overhead_mb: VRAM_OVERHEAD_MB,
        total_vram_mb: total_vram as u64,
        total_ram_mb: total_ram as u64,
        gpu_layers: c.gpu_layers,
        total_layers: info.block_count,
        fits_vram: total_vram <= first_vram(hw) || c.gpu_layers == 0,
        fits_ram: total_ram <= hw.available_ram_mb,
    }
}

/// Whether the sums of [`estimate_resources`] stay within `u64`.
pub open spec fn estimate_fits(info: GgufInfoView, c: LaunchConfigView) -> bool {
    let m = model_mb(info);
    let kv = kv_cache_mb(c.ctx_size, info, c.cache_type_k);
    let gpu_model = gpu_share_mb(m, c.gpu_layers, info.block_count);
    &&& kv_cache_fits(c.ctx_size, info, c.cache_type_k)
    &&& c.gpu_layers > 0 ==> gpu_model + kv + VRAM_OVERHEAD_MB <= u64::MAX
    &&& c.gpu_layers == 0 ==> m + kv <= u64::MAX
}

/// Estimates the RAM and VRAM a launch takes: the GPU's share of the model,
/// the KV cache and the overhead in VRAM when layers are offloaded, the
/// rest of the model (and the KV cache, without offload) in RAM.
pub fn estimate_resources(info: &GgufInfo, config: &LaunchConfig, hw: &HardwareInfo) -> (r:
    ResourceEstimate)
    requires
        estimate_fits(info@, config@),
    ensures
        r == estimated(info@, config@, *hw),
{
    let model_size_mb = info.file_size / MIB;
    let total_layers = info.block_count;
    let kv_cache_mb = estimate_kv_cache(config.ctx_size, info, config.cache_type_k.as_str());
    let vram_mb = first_gpu_vram(hw);
    let gpu_model_mb: u64 = if total_layers > 0 {
        let mm: u128 = model_size_mb as u128;
        let gl: u128 = config.gpu_layers as u128;
        assert(mm * gl <= u128::MAX) by (nonlinear_arith)
            requires
                mm <= u64::MAX,
                gl <= u64::MAX,
        ;
        let share: u128 = mm * gl / (total_layers as u128);
        if share <= u64::MAX as u128 {
            share as u64
        } else {
            u64::MAX
        }
    } else {
        0
    };
    let cpu_model_mb = model_size_mb.saturating_sub(gpu_model_mb);
    let total_vram_mb: u64 = if config.gpu_layers > 0 {
        gpu_model_mb + kv_cache_mb + VRAM_OVERHEAD_MB
    } else {
        0
    };
    let total_ram_mb: u64 = cpu_model_mb + if config.gpu_layers == 0 {
        kv_cache_mb
    } else {
        0
    };
    ResourceEstimate {
        model_size_mb,
        kv_cache_mb,
        overhead_mb: VRAM_OVERHEAD_MB,
        total_vram_mb,
        total_ram_mb,
        gpu_layers: config.gpu_layers,
        total_layers,
        fits_vram: total_vram_mb <= vram_mb || config.gpu_layers == 0,
        fits_ram: total_ram_mb <= hw.available_ram_mb,
    }
}

/// A flag and its value when `present`, nothing otherwise.
pub open spec fn flag_pair(present: bool, flag: Seq<char>, value: Seq<char>) -> Seq<Seq<char>> {
    if present {
        seq![flag, value]
    } else {
        Seq::empty()
    }
}

/// The `llama-server` arguments for a configuration.
pub open spec fn server_args(c: LaunchConfigView) -> Seq<Seq<char>> {
    seq!["-m"@, c.model_path] + flag_pair(c.mmproj_path.len() > 0, "--mmproj"@, c.mmproj_path)
        + seq!["--host"@, c.host, "--port"@, decimal(c.port as nat)] + flag_pair(
        c.ctx_size > 0,
        "-c"@,
        decimal(c.ctx_size as nat),
    ) + flag_pair(c.gpu_layers > 0, "-ngl"@, decimal(c.gpu_layers as nat)) + flag_pair(
        c.threads > 0,
        "-t"@,
        decimal(c.threads as nat),
    ) + flag_pair(c.threads_batch > 0, "-tb"@, decimal(c.threads_batch as nat)) + flag_pair(
        c.batch_size > 0,
        "-b"@,
        decimal(c.batch_size as nat),
    ) + flag_pair(c.ubatch_size > 0, "-ub"@, decimal(c.ubatch_size as nat)) + flag_pair(
        c.flash_attn.len() > 0,
        "-fa"@,
        c.flash_attn,
    ) + flag_pair(c.cache_type_k.len() > 0, "-ctk"@, c.cache_type_k) + flag_pair(
        c.cache_type_v.len() > 0,
        "-ctv"@,
        c.cache_type_v,
    ) + (if c.mlock {
        seq!["--mlock"@]
    } else {
        Seq::empty()
    }) + flag_pair(c.split_mode.len() > 0, "-sm"@, c.split_mode)
}

/// The characters of each string in a sequence.
pub open spec fn strings_view(v: Seq<String>) -> Seq<Seq<char>> {
    v.map_values(|s: String| s@)
}

fn push_flag(args: &mut Vec<String>, present: bool, flag: &str, value: String)
    ensures
        strings_view(final(args)@) == strings_view(old(args)@) + flag_pair(present, flag@, value@),
{
    if present {
        args.push(String::from_str(flag));
        args.push(value);
        assert(strings_view(args@) =~= strings_view(old(args)@) + seq![flag@, value@]);
    } else {
        assert(strings_view(args@) =~= strings_view(old(args)@) + Seq::<Seq<char>>::empty());
    }
}

fn push_count_flag(args: &mut Vec<String>, flag: &str, value: u64)
    ensures
        strings_view(final(args)@) == strings_view(old(args)@) + flag_pair(
            value > 0,
            flag@,
            decimal(value as nat),
        ),
{
    if value > 0 {
        push_flag(args, true, flag, u64_to_string(value));
    } else {
        assert(strings_view(args@) =~= strings_view(old(args)@) + Seq::<Seq<char>>::empty());
    }
}

fn push_text_flag(args: &mut Vec<String>, flag: &str, value: &String)
    ensures
        strings_view(final(args)@) == strings_view(old(args)@) + flag_pair(
            value@.len() > 0,
            flag@,
            value@,
        ),
{
    let present = !value.as_str().is_empty();
    push_flag(args, present, flag, value.clone());
}

impl LaunchConfig {
    /// The `llama-server` command-line arguments for this configuration.
    pub fn to_args(&self) -> (r: Vec<String>)
        ensures
            strings_view(r@) == server_args(self@),
    {
        let mut args: Vec<String> = Vec::new();
        let ghost c = self@;
        push_flag(&mut args, true, "-m", self.model_path.clone());
        assert(strings_view(args@) =~= seq!["-m"@, c.model_path]);
        push_text_flag(&mut args, "--mmproj", &self.mmproj_path);
        let ghost a1 = strings_view(args@);
        args.push(String::from_str("--host"));
        args.push(self.host.clone());
        args.push(String::from_str("--port"));
        args.push(u64_to_string(self.port as u64));
        assert(strings_view(args@) =~= a1 + seq!["--host"@, c.host, "--port"@, decimal(c.port as nat)]);
        push_count_flag(&mut args, "-c", self.ctx_size);
        push_count_flag(&mut args, "-ngl", self.gpu_layers);
        push_count_flag(&mut args, "-t", self.threads as u64);
        push_count_flag(&mut args, "-tb", self.threads_batch as u64);
        push_count_flag(&mut args, "-b", self.batch_size);
        push_count_flag(&mut args, "-ub", self.ubatch_size);
        push_text_flag(&mut args, "-fa", &self.flash_attn);
        push_text_flag(&mut args, "-ctk", &self.cache_type_k);
        push_text_flag(&mut args, "-ctv", &self.cache_type_v);
        let ghost a12 = strings_view(args@);
        if self.mlock {
            args.push(String::from_str("--mlock"));
        }
        assert(strings_view(args@) =~= a12 + (if c.mlock {
            seq!["--mlock"@]
        } else {
            Seq::<Seq<char>>::empty()
        }));
        push_text_flag(&mut args, "-sm", &self.split_mode);
        args
    }
}

/// Whether the KV cache size for these inputs can be computed within
/// `u64`.
pub fn kv_cache_in_range(ctx_size: u64, info: &GgufInfo, cache_type: &str) -> (r: bool)
    ensures
        r == kv_cache_fits(ctx_size, info@, cache_type@),
{
    let n_layers: u64 = if info.block_count > 1 {
        info.block_count
    } else {
        1
    };
    let h: u64 = if info.head_count_kv > 0 {
        info.head_count_kv
    } else {
        info.head_count
    };
    let n_kv_heads: u64 = if h > 1 {
        h
    } else {
        1
    };
    let head_dim: u64 = if info.head_count > 0 && info.embedding_length > 0 {
        info.embedding_length / info.head_count
    } else {
        128
    };
    let bytes_per_element: u64 = if str_equals(cache_type, "f16") {
        2
    } else {
        1
    };
    let a = match 2u64.checked_mul(n_layers) {
        Some(v) => v,
        None => {
            return false;
        },
    };
    let b = match a.checked_mul(n_kv_heads) {
        Some(v) => v,
        None => {
            return false;
        },
    };
    let c = match b.checked_mul(head_dim) {
        Some(v) => v,
        None => {
            return false;
        },
    };
    let d = match c.checked_mul(ctx_size) {
        Some(v) => v,
        None => {
            return false;
        },
    };
    match d.checked_mul(bytes_per_element) {
        Some(_) => true,
        None => false,
    }
}

/// Whether [`compute`] can run on these inputs without overflow.
pub fn compute_in_range(info: &GgufInfo, overrides: Option<&LaunchConfig>) -> (r: bool)
    ensures
        r == compute_fits(info@, opt_config(overrides)),
{
    let base_ctx: u64 = match overrides {
        Some(o) if o.ctx_size > 0 => o.ctx_size,
        _ => if info.context_length > 0 {
            info.context_length
        } else {
            4096
        },
    };
    let ctx_size: u64 = if base_ctx < MAX_DEFAULT_CTX {
        base_ctx
    } else {
        MAX_DEFAULT_CTX
    };
    match overrides {
        Some(o) => kv_cache_in_range(ctx_size, info, o.cache_type_k.as_str()),
        None => {
            proof {
                reveal_strlit("q8_0");
            }
            kv_cache_in_range(ctx_size, info, "q8_0")
        },
    }
}

/// Whether [`estimate_resources`] can run on these inputs without overflow.
pub fn estimate_in_range(info: &GgufInfo, config: &LaunchConfig) -> (r: bool)
    ensures
        r == estimate_fits(info@, config@),
{
    if !kv_cache_in_range(config.ctx_size, info, config.cache_type_k.as_str()) {
        return false;
    }
    let kv = estimate_kv_cache(config.ctx_size, info, config.cache_type_k.as_str());
    let model_size_mb = info.file_size / MIB;
    let total_layers = info.block_count;
    if config.gpu_layers > 0 {
        let gpu_model_mb: u64 = if total_layers > 0 {
            let mm: u128 = model_size_mb as u128;
            let gl: u128 = config.gpu_layers as u128;
            assert(mm * gl <= u128::MAX) by (nonlinear_arith)
                requires
                    mm <= u64::MAX,
                    gl <= u64::MAX,
            ;
            let share: u128 = mm * gl / (total_layers as u128);
            if share <= u64::MAX as u128 {
                share as u64
            } else {
                u64::MAX
            }
        } else {
            0
        };
        (gpu_model_mb as u128) + (kv as u128) + (VRAM_OVERHEAD_MB as u128) <= u64::MAX as u128
    } else {
        (model_size_mb as u128) + (kv as u128) <= u64::MAX as u128
    }
}

/// Without overrides the context size is the model's context length, or
/// 4096 when the model gives none, capped at 128000; with any overrides it
/// never exceeds 128000.
pub proof fn law_default_context_size(info: GgufInfoView, hw: HardwareInfo, ov: Option<LaunchConfigView>)
    ensures
        computed_config(info, hw, None).ctx_size == if info.context_length == 0 {
            4096
        } else if info.context_length < MAX_DEFAULT_CTX {
            info.context_length
        } else {
            MAX_DEFAULT_CTX
        },
        computed_config(info, hw, ov).ctx_size <= MAX_DEFAULT_CTX,
        computed_config(info, hw, ov).ctx_size > 0,
{
}

/// Without overrides, threads default to the physical cores and batch
/// threads to the logical cores, at least one each.
pub proof fn law_default_threads(info: GgufInfoView, hw: HardwareInfo)
    ensures
        computed_config(info, hw, None).threads == if hw.physical_cores > 0 {
            hw.physical_cores
        } else {
            1
        },
        computed_config(info, hw, None).threads_batch == if hw.logical_cores > 0 {
            hw.logical_cores
        } else {
            1
        },
{
}

/// Without overrides, flash attention is `auto` for a `llama` model on a
/// machine with an NVIDIA adapter and a first adapter with memory, and
/// `off` otherwise.
pub proof fn law_default_flash_attn(info: GgufInfoView, hw: HardwareInfo)
    ensures
        computed_config(info, hw, None).flash_attn == if hw.has_nvidia && first_vram(hw) > 0
            && info.architecture == "llama"@ {
            "auto"@
        } else {
            "off"@
        },
{
}

/// Without overrides, `mlock` is on exactly when the available RAM exceeds
/// one and a half times the model size.
pub proof fn law_default_mlock(info: GgufInfoView, hw: HardwareInfo)
    ensures
        computed_config(info, hw, None).mlock == (hw.available_ram_mb > model_mb(info) * 3 / 2),
{
}

/// Without a GPU layer override: no layers are offloaded without adapter
/// memory, never more layers than the model has, and a partial offload is
/// the largest number of layers whose share of the model fits in the
/// adapter memory left after the overhead and the KV cache.
pub proof fn law_default_gpu_layers(info: GgufInfoView, hw: HardwareInfo)
    ensures
        ({
            let g = computed_config(info, hw, None).gpu_layers;
            let kv = kv_cache_mb(chosen_ctx(info, None), info, "q8_0"@);
            let budget = first_vram(hw) - VRAM_OVERHEAD_MB - kv;
            let m = model_mb(info);
            let l = info.block_count;
            &&& first_vram(hw) == 0 ==> g == 0
            &&& g <= l
            &&& budget <= 0 ==> g == 0
            &&& (budget > 0 && m > 0) ==> g * m <= budget * l
            &&& (budget > 0 && m > 0 && g < l) ==> (g + 1) * m > budget * l
        }),
{
    let g = computed_config(info, hw, None).gpu_layers;
    let kv = kv_cache_mb(chosen_ctx(info, None), info, "q8_0"@);
    let vram = first_vram(hw);
    let budget = vram - VRAM_OVERHEAD_MB - kv;
    let m = model_mb(info);
    let l = info.block_count;
    if vram > 0 && budget > 0 && l > 0 && m > 0 {
        let x = budget * l;
        assert(x >= 0) by (nonlinear_arith)
            requires
                x == budget * l,
                budget > 0,
                l > 0,
        ;
        let q = x / (m as int);
        vstd::arithmetic::div_mod::lemma_fundamental_div_mod(x, m as int);
        assert(q * m <= x) by (nonlinear_arith)
            requires
                x == (m as int) * q + x % (m as int),
                0 <= x % (m as int),
                m > 0,
        ;
        assert((q + 1) * m > x) by (nonlinear_arith)
            requires
                x == (m as int) * q + x % (m as int),
                x % (m as int) < m,
                m > 0,
        ;
        if q < l {
            assert(g == q);
        } else {
            assert(g == l);
            assert(g * m <= q * m) by (nonlinear_arith)
                requires
                    g <= q,
                    m > 0,
            ;
        }
    }
}

/// Positive overrides are kept as given (the context size up to the cap),
/// and every text setting is taken from the overrides.
pub proof fn law_overrides_kept(info: GgufInfoView, hw: HardwareInfo, o: LaunchConfigView)
    ensures
        ({
            let c = computed_config(info, hw, Some(o));
            &&& o.ctx_size > 0 ==> c.ctx_size == if o.ctx_size < MAX_DEFAULT_CTX {
                o.ctx_size
            } else {
                MAX_DEFAULT_CTX
            }
            &&& o.gpu_layers > 0 ==> c.gpu_layers == o.gpu_layers
            &&& o.threads > 0 ==> c.threads == o.threads
            &&& o.threads_batch > 0 ==> c.threads_batch == o.threads_batch
            &&& o.port > 0 ==> c.port == o.port
            &&& c.batch_size == o.batch_size
            &&& c.ubatch_size == o.ubatch_size
            &&& c.flash_attn == o.flash_attn
            &&& c.cache_type_k == o.cache_type_k
            &&& c.cache_type_v == o.cache_type_v
            &&& c.mlock == o.mlock
            &&& c.host == o.host
            &&& c.model_path == o.model_path
            &&& c.mmproj_path == o.mmproj_path
            &&& c.split_mode == o.split_mode
        }),
{
}

/// Computing again with the computed settings as overrides gives the same
/// settings, with or without overrides the first time.
pub proof fn law_recompute_is_stable(info: GgufInfoView, hw: HardwareInfo, ov: Option<LaunchConfigView>)
    ensures
        computed_config(info, hw, Some(computed_config(info, hw, ov))) == computed_config(
            info,
            hw,
            ov,
        ),
{
    let c0 = computed_config(info, hw, ov);
    assert(chosen_ctx(info, Some(c0)) == chosen_ctx(info, ov));
    assert(chosen_cache_type(Some(c0)) == chosen_cache_type(ov));
}

proof fn lemma_auto_gpu_layers_monotone(v1: u64, v2: u64, kv: int, m: u64, l: u64)
    requires
        v1 <= v2,
    ensures
        auto_gpu_layers(v1, kv, m, l) <= auto_gpu_layers(v2, kv, m, l),
{
    if v1 > 0 {
        let u1: int = if v1 > VRAM_OVERHEAD_MB { v1 - VRAM_OVERHEAD_MB } else { 0 };
        let u2: int = if v2 > VRAM_OVERHEAD_MB { v2 - VRAM_OVERHEAD_MB } else { 0 };
        assert(u1 <= u2);
        if u1 > kv && l > 0 && m > 0 {
            let a = (u1 - kv) * l;
            let b = (u2 - kv) * l;
            assert(a <= b) by (nonlinear_arith)
                requires
                    a == (u1 - kv) * l,
                    b == (u2 - kv) * l,
                    u1 <= u2,
                    l > 0,
            ;
            vstd::arithmetic::div_mod::lemma_div_is_ordered(a, b, m as int);
        }
    }
}

/// Without a GPU layer override, more memory on the first adapter never
/// offloads fewer layers.
pub proof fn law_more_vram_no_fewer_layers(
    info: GgufInfoView,
    hw: HardwareInfo,
    hw2: HardwareInfo,
    ov: Option<LaunchConfigView>,
)
    requires
        first_vram(hw) <= first_vram(hw2),
        ov is None || ov->0.gpu_layers == 0,
    ensures
        computed_config(info, hw, ov).gpu_layers <= computed_config(info, hw2, ov).gpu_layers,
{
    let kv = kv_cache_mb(chosen_ctx(info, ov), info, chosen_cache_type(ov));
    lemma_auto_gpu_layers_monotone(first_vram(hw), first_vram(hw2), kv, model_mb(info), info.block_count);
}

/// GPU layers left unset (no overrides, or overrides with 0 layers) are
/// chosen from the hardware: none without adapter memory, never more than
/// the model has, and otherwise the largest count whose share of the model
/// fits in the first adapter's memory after the overhead and the KV cache
/// of the chosen context size and cache type.
pub proof fn law_unset_gpu_layers_fill_vram(info: GgufInfoView, hw: HardwareInfo, ov: Option<LaunchConfigView>)
    requires
        ov is None || ov->0.gpu_layers == 0,
    ensures
        ({
            let g = computed_config(info, hw, ov).gpu_layers;
            let kv = kv_cache_mb(chosen_ctx(info, ov), info, chosen_cache_type(ov));
            let budget = first_vram(hw) - VRAM_OVERHEAD_MB - kv;
            let m = model_mb(info);
            let l = info.block_count;
            &&& g == auto_gpu_layers(first_vram(hw), kv, m, l)
            &&& first_vram(hw) == 0 ==> g == 0
            &&& g <= l
            &&& budget <= 0 ==> g == 0
            &&& (first_vram(hw) > 0 && budget > 0 && m == 0) ==> g == l
            &&& (budget > 0 && m > 0) ==> g * m <= budget * l
            &&& (first_vram(hw) > 0 && budget > 0 && m > 0 && g < l) ==> (g + 1) * m > budget * l
        }),
{
    let g = computed_config(info, hw, ov).gpu_layers;
    let kv = kv_cache_mb(chosen_ctx(info, ov), info, chosen_cache_type(ov));
    let vram = first_vram(hw);
    let budget = vram - VRAM_OVERHEAD_MB - kv;
    let m = model_mb(info);
    let l = info.block_count;
    if vram > 0 && budget > 0 && l > 0 && m > 0 {
        let x = budget * l;
        assert(x >= 0) by (nonlinear_arith)
            requires
                x == budget * l,
                budget > 0,
                l > 0,
        ;
        let q = x / (m as int);
        vstd::arithmetic::div_mod::lemma_fundamental_div_mod(x, m as int);
        assert(q * m <= x) by (nonlinear_arith)
            requires
                x == (m as int) * q + x % (m as int),
                0 <= x % (m as int),
                m > 0,
        ;
        assert((q + 1) * m > x) by (nonlinear_arith)
            requires
                x == (m as int) * q + x % (m as int),
                x % (m as int) < m,
                m > 0,
        ;
        if q < l {
            assert(g == q);
        } else {
            assert(g == l);
            assert(g * m <= q * m) by (nonlinear_arith)
                requires
                    g <= q,
                    m > 0,
            ;
        }
    }
}

/// Override counts left at 0 take the defaults the machine and model give:
/// the model's context length (4096 when it gives none, at most 128000),
/// the physical and logical cores (at least one), and port 8080.
pub proof fn law_unset_overrides_take_defaults(info: GgufInfoView, hw: HardwareInfo, o: LaunchConfigView)
    ensures
        ({
            let c = computed_config(info, hw, Some(o));
            &&& o.ctx_size == 0 ==> c.ctx_size == if info.context_length == 0 {
                4096
            } else if info.context_length < MAX_DEFAULT_CTX {
                info.context_length
            } else {
                MAX_DEFAULT_CTX
            }
            &&& o.threads == 0 ==> c.threads == if hw.physical_cores > 0 {
                hw.physical_cores
            } else {
                1
            }
            &&& o.threads_batch == 0 ==> c.threads_batch == if hw.logical_cores > 0 {
                hw.logical_cores
            } else {
                1
            }
            &&& o.port == 0 ==> c.port == 8080
        }),
{
}

/// The estimate says the launch fits in RAM exactly when its RAM total is
/// at most the available RAM, and fits in VRAM exactly when nothing is
/// offloaded or its VRAM total is at most the first adapter's memory. Without
/// offload the RAM total is the whole model and the KV cache, and no VRAM is
/// used; with offload the VRAM total is the GPU share, the KV cache and the
/// overhead.
pub proof fn law_estimate_fits_compare(info: GgufInfoView, c: LaunchConfigView, hw: HardwareInfo)
    requires
        estimate_fits(info, c),
    ensures
        ({
            let r = estimated(info, c, hw);
            let kv = kv_cache_mb(c.ctx_size, info, c.cache_type_k);
            &&& r.fits_ram == (r.total_ram_mb <= hw.available_ram_mb)
            &&& r.fits_vram == (c.gpu_layers == 0 || r.total_vram_mb <= first_vram(hw))
            &&& c.gpu_layers == 0 ==> r.total_ram_mb == model_mb(info) + kv && r.total_vram_mb == 0
            &&& c.gpu_layers > 0 ==> r.total_vram_mb == gpu_share_mb(model_mb(info), c.gpu_layers, info.block_count) + kv + VRAM_OVERHEAD_MB
            &&& r.kv_cache_mb == kv
            &&& r.model_size_mb == model_mb(info)
        }),
{
    lemma_kv_cache_nonneg(c.ctx_size, info, c.cache_type_k);
    let m = model_mb(info);
    lemma_gpu_share_monotone(m, 0, c.gpu_layers, info.block_count);
}

proof fn lemma_kv_cache_nonneg(ctx_size: u64, info: GgufInfoView, cache_type: Seq<char>)
    ensures
        kv_cache_mb(ctx_size, info, cache_type) >= 0,
{
    let a = 2 * kv_layers(info);
    let b = a * kv_heads(info);
    let c = b * head_dim(info);
    let d = c * ctx_size;
    let e = d * cache_elem_bytes(cache_type);
    assert(e >= 0) by (nonlinear_arith)
        requires
            a >= 0,
            b == a * kv_heads(info),
            kv_heads(info) >= 0,
            c == b * head_dim(info),
            head_dim(info) >= 0,
            d == c * ctx_size,
            ctx_size >= 0,
            e == d * cache_elem_bytes(cache_type),
            cache_elem_bytes(cache_type) >= 0,
    ;
}

proof fn lemma_gpu_share_monotone(m: u64, g1: u64, g2: u64, l: u64)
    requires
        g1 <= g2,
    ensures
        gpu_share_mb(m, g1, l) <= gpu_share_mb(m, g2, l),
        gpu_share_mb(m, 0, l) == 0,
{
    if l > 0 {
        let a = m * g1;
        let b = m * g2;
        assert(0 <= a <= b) by (nonlinear_arith)
            requires
                a == m * g1,
                b == m * g2,
                g1 <= g2,
        ;
        vstd::arithmetic::div_mod::lemma_div_is_ordered(a, b, l as int);
        assert(m * 0 == 0);
    }
}

/// Offloading more layers never lowers the VRAM estimate nor raises the RAM
/// estimate, all else equal (where both estimates stay within `u64`).
pub proof fn law_more_layers_more_vram_less_ram(
    info: GgufInfoView,
    c: LaunchConfigView,
    g2: u64,
    hw: HardwareInfo,
)
    requires
        c.gpu_layers <= g2,
        estimate_fits(info, c),
        estimate_fits(info, LaunchConfigView { gpu_layers: g2, ..c }),
    ensures
        ({
            let c2 = LaunchConfigView { gpu_layers: g2, ..c };
            &&& estimated(info, c, hw).total_vram_mb <= estimated(info, c2, hw).total_vram_mb
            &&& estimated(info, c2, hw).total_ram_mb <= estimated(info, c, hw).total_ram_mb
        }),
{
    let m = model_mb(info);
    lemma_kv_cache_nonneg(c.ctx_size, info, c.cache_type_k);
    lemma_gpu_share_monotone(m, c.gpu_layers, g2, info.block_count);
}

/// An `f16` cache takes at least as much memory as a `q8_0` cache.
pub proof fn law_f16_cache_not_smaller(ctx_size: u64, info: GgufInfoView)
    ensures
        kv_cache_mb(ctx_size, info, "f16"@) >= kv_cache_mb(ctx_size, info, "q8_0"@),
{
    reveal_strlit("f16");
    reveal_strlit("q8_0");
    assert("q8_0"@ != "f16"@) by {
        assert("q8_0"@.len() != "f16"@.len());
    }
    let x = 2 * kv_layers(info) * kv_heads(info) * head_dim(info) * ctx_size;
    assert(x >= 0) by (nonlinear_arith)
        requires
            x == 2 * kv_layers(info) * kv_heads(info) * head_dim(info) * ctx_size,
    ;
    assert(x * 2 / (MIB as int) >= x * 1 / (MIB as int)) by (nonlinear_arith)
        requires
            x >= 0,
    ;
}

/// A launch without GPU layers takes no VRAM and always fits in it; one with
/// layers counts the overhead in its VRAM.
pub proof fn law_estimate_offload(info: GgufInfoView, c: LaunchConfigView, hw: HardwareInfo)
    requires
        estimate_fits(info, c),
    ensures
        c.gpu_layers == 0 ==> estimated(info, c, hw).total_vram_mb == 0 && estimated(
            info,
            c,
            hw,
        ).fits_vram,
        c.gpu_layers > 0 ==> estimated(info, c, hw).total_vram_mb >= VRAM_OVERHEAD_MB,
        estimated(info, c, hw).gpu_layers == c.gpu_layers,
        estimated(info, c, hw).total_layers == info.block_count,
{
    let m = model_mb(info);
    let kv = kv_cache_mb(c.ctx_size, info, c.cache_type_k);
    let x = 2 * kv_layers(info) * kv_heads(info) * head_dim(info) * c.ctx_size
        * cache_elem_bytes(c.cache_type_k);
    assert(x >= 0) by (nonlinear_arith)
        requires
            x == 2 * kv_layers(info) * kv_heads(info) * head_dim(info) * c.ctx_size
                * cache_elem_bytes(c.cache_type_k),
    ;
}

/// The arguments start with the model path, give the host and port, and
/// ask for `--mlock` when it is set.
pub proof fn law_args_shape(c: LaunchConfigView)
    ensures
        server_args(c)[0] == "-m"@,
        server_args(c)[1] == c.model_path,
        server_args(c).contains("--host"@),
        server_args(c).contains("--port"@),
        server_args(c).contains(decimal(c.port as nat)),
        c.mlock ==> server_args(c).contains("--mlock"@),
{
    let a = server_args(c);
    let p1 = seq!["-m"@, c.model_path] + flag_pair(c.mmproj_path.len() > 0, "--mmproj"@, c.mmproj_path);
    let p2 = p1 + seq!["--host"@, c.host, "--port"@, decimal(c.port as nat)];
    let k: int = p1.len() as int;
    assert(p2[k] == "--host"@);
    assert(p2[k + 2] == "--port"@);
    assert(p2[k + 3] == decimal(c.port as nat));
    assert(a[k] == "--host"@);
    assert(a[k + 2] == "--port"@);
    assert(a[k + 3] == decimal(c.port as nat));
    if c.mlock {
        let before = a.len() - 1 - flag_pair(c.split_mode.len() > 0, "-sm"@, c.split_mode).len();
        assert(a[before] == "--mlock"@);
    }
}

} // verus!
