//! The decisions of the desktop front end: which settings a saved file, a
//! preset or the current state give, which projector file goes with a
//! model, which server executable to use, and how a stopped server is
//! reported and restarted.
use crate::config::{default_config, server_args, strings_view, LaunchConfig, LaunchConfigView, MAX_DEFAULT_CTX};
use crate::gguf::GgufInfo;
use crate::hwdetect::HardwareInfo;
use crate::persistence::{NamedPreset, SavedConfig};
use crate::server::{server_error_text, ServerError, ServerStatus};
use crate::text::{
    chars_of, contains_str, decimal, has_substring, i64_to_string, join_strings, joined, lowercase,
    signed_decimal, str_equals, to_lowercase, u64_to_string,
};
use vstd::prelude::*;
use vstd::string::*;

verus! {

/// Requests from the tray icon to the window.
#[derive(Debug, Clone, Copy, PartialEq, Eq, Structural)]
pub enum AppEvent {
    ShowWindow,
    Quit,
}

/// The event a tray menu item asks for: `show` and `quit`; other ids none.
pub fn menu_event(id: &str) -> (r: Option<AppEvent>)
    ensures
        r == if id@ == "show"@ {
            Some(AppEvent::ShowWindow)
        } else if id@ == "quit"@ {
            Some(AppEvent::Quit)
        } else {
            None
        },
{
    if str_equals(id, "show") {
        Some(AppEvent::ShowWindow)
    } else if str_equals(id, "quit") {
        Some(AppEvent::Quit)
    } else {
        None
    }
}

/// Whether the server process is up (running or answering).
pub open spec fn status_is_active(s: ServerStatus) -> bool {
    s is Running || s is Healthy
}

/// Whether the server process is up (running or answering).
pub fn is_active(status: &ServerStatus) -> (r: bool)
    ensures
        r == status_is_active(*status),
{
    match status {
        ServerStatus::Running | ServerStatus::Healthy => true,
        _ => false,
    }
}

/// Length of the longest common prefix of two character sequences.
pub open spec fn common_prefix(a: Seq<char>, b: Seq<char>) -> nat
    decreases a.len(),
{
    if a.len() == 0 || b.len() == 0 || a[0] != b[0] {
        0
    } else {
        1 + common_prefix(a.drop_first(), b.drop_first())
    }
}

/// Number of leading characters two strings share.
pub fn common_prefix_len(a: &str, b: &str) -> (r: usize)
    ensures
        r == common_prefix(a@, b@),
{
    let x = chars_of(a);
    let y = chars_of(b);
    let mut i: usize = 0;
    assert(x@.skip(0) =~= x@);
    assert(y@.skip(0) =~= y@);
    while i < x.len() && i < y.len() && x[i] == y[i]
        invariant
            i <= x@.len(),
            i <= y@.len(),
            x@ == a@,
            y@ == b@,
            common_prefix(a@, b@) == i + common_prefix(x@.skip(i as int), y@.skip(i as int)),
        decreases x.len() - i,
    {
        assert(x@.skip(i as int).drop_first() =~= x@.skip(i + 1));
        assert(y@.skip(i as int).drop_first() =~= y@.skip(i + 1));
        i = i + 1;
    }
    i
}

/// A file next to the model that may be its multimodal projector.
pub struct MmprojCandidate {
    /// The full path, lossily decoded.
    pub path: String,
    /// The extension, lossily decoded, if any.
    pub extension: Option<String>,
    /// The file name, if it is valid Unicode.
    pub file_name: Option<String>,
    /// The file stem, if it is valid Unicode.
    pub stem: Option<String>,
}

/// The text of an optional string, empty when absent.
pub open spec fn text_or_empty(s: Option<String>) -> Seq<char> {
    match s {
        Some(x) => x@,
        None => Seq::empty(),
    }
}

/// The score of a candidate against the model's lowercased stem: the length
/// of the common prefix of the stems, for a `.gguf` file whose lowercased
/// name contains `mmproj`; none when that is 0 or the file does not qualify.
pub open spec fn mmproj_score(model_stem: Seq<char>, c: MmprojCandidate) -> Option<nat> {
    if c.extension is Some && c.extension->0@ == "gguf"@ && has_substring(
        lowercase(text_or_empty(c.file_name)),
        "mmproj"@,
    ) {
        let score = common_prefix(model_stem, lowercase(text_or_empty(c.stem)));
        if score > 0 {
            Some(score)
        } else {
            None
        }
    } else {
        None
    }
}

/// The best candidate among `cs`: the first with the highest score.
pub open spec fn best_mmproj(model_stem: Seq<char>, cs: Seq<MmprojCandidate>) -> Option<
    (Seq<char>, nat),
>
    decreases cs.len(),
{
    if cs.len() == 0 {
        None
    } else {
        let best = best_mmproj(model_stem, cs.drop_last());
        match mmproj_score(model_stem, cs.last()) {
            Some(sc) => match best {
                Some(b) => if sc > b.1 {
                    Some((cs.last().path@, sc))
                } else {
                    best
                },
                None => Some((cs.last().path@, sc)),
            },
            None => best,
        }
    }
}

/// Whether `c` can be the projector of a model with the lowercased stem
/// `model_stem`, and the length of the shared stem prefix it scores.
pub open spec fn qualifies(model_stem: Seq<char>, c: MmprojCandidate, score: nat) -> bool {
    &&& c.extension is Some
    &&& c.extension->0@ == "gguf"@
    &&& has_substring(lowercase(text_or_empty(c.file_name)), "mmproj"@)
    &&& score == common_prefix(model_stem, lowercase(text_or_empty(c.stem)))
}

/// The projector chosen for a model is a `.gguf` candidate whose lowercased
/// name contains `mmproj` and whose lowercased stem shares at least one
/// leading character with the model's; no other such candidate shares a
/// longer prefix, and none before it an equally long one. Nothing is chosen
/// exactly when no candidate shares a prefix.
pub proof fn law_mmproj_choice(model_stem: Seq<char>, cs: Seq<MmprojCandidate>)
    ensures
        match best_mmproj(model_stem, cs) {
            Some((path, score)) => exists|i: int|
                0 <= i < cs.len() && cs[i].path@ == path && score > 0 && #[trigger] qualifies(
                    model_stem,
                    cs[i],
                    score,
                ) && (forall|j: int|
                    0 <= j < i ==> !(common_prefix(model_stem, lowercase(text_or_empty(cs[j].stem))) >= score
                        && #[trigger] qualifies(model_stem, cs[j], common_prefix(model_stem, lowercase(text_or_empty(cs[j].stem)))))),
            None => true,
        },
        forall|j: int, sc: nat|
            0 <= j < cs.len() && sc > 0 && #[trigger] qualifies(model_stem, cs[j], sc) ==> (
            best_mmproj(model_stem, cs) matches Some(b) && sc <= b.1),
        best_mmproj(model_stem, cs) is None ==> forall|j: int, sc: nat|
            0 <= j < cs.len() && #[trigger] qualifies(model_stem, cs[j], sc) ==> sc == 0,
    decreases cs.len(),
{
    if cs.len() > 0 {
        let rest = cs.drop_last();
        let last = cs.last();
        law_mmproj_choice(model_stem, rest);
        let sl = common_prefix(model_stem, lowercase(text_or_empty(last.stem)));
        assert forall|j: int, sc: nat|
            0 <= j < cs.len() && sc > 0 && #[trigger] qualifies(model_stem, cs[j], sc) implies (
            best_mmproj(model_stem, cs) matches Some(b) && sc <= b.1) by {
            if j < cs.len() - 1 {
                assert(rest[j] == cs[j]);
                assert(qualifies(model_stem, rest[j], sc));
            }
        }
        assert(best_mmproj(model_stem, cs) is None ==> forall|j: int, sc: nat|
            0 <= j < cs.len() && #[trigger] qualifies(model_stem, cs[j], sc) ==> sc == 0) by {
            if best_mmproj(model_stem, cs) is None {
                assert forall|j: int, sc: nat|
                    0 <= j < cs.len() && #[trigger] qualifies(model_stem, cs[j], sc) implies sc == 0 by {
                    if j < cs.len() - 1 {
                        assert(rest[j] == cs[j]);
                        assert(qualifies(model_stem, rest[j], sc));
                    }
                }
            }
        }
        match best_mmproj(model_stem, cs) {
            Some((path, score)) => {
                match best_mmproj(model_stem, rest) {
                    Some((rp, rs)) => {
                        if best_mmproj(model_stem, cs) == best_mmproj(model_stem, rest) {
                            let i = choose|i: int|
                                0 <= i < rest.len() && rest[i].path@ == rp && rs > 0 && #[trigger] qualifies(
                                    model_stem,
                                    rest[i],
                                    rs,
                                ) && (forall|j: int|
                                    0 <= j < i ==> !(common_prefix(model_stem, lowercase(text_or_empty(rest[j].stem))) >= rs
                                        && #[trigger] qualifies(model_stem, rest[j], common_prefix(model_stem, lowercase(text_or_empty(rest[j].stem))))));
                            assert(cs[i] == rest[i]);
                            assert forall|j: int| 0 <= j < i implies !(common_prefix(model_stem, lowercase(text_or_empty(cs[j].stem))) >= score
                                && #[trigger] qualifies(model_stem, cs[j], common_prefix(model_stem, lowercase(text_or_empty(cs[j].stem))))) by {
                                assert(cs[j] == rest[j]);
                            }
                            assert(qualifies(model_stem, cs[i], score));
                        } else {
                            let i = cs.len() - 1;
                            assert(cs[i] == last);
                            assert(qualifies(model_stem, cs[i], score));
                            assert forall|j: int| 0 <= j < i implies !(common_prefix(model_stem, lowercase(text_or_empty(cs[j].stem))) >= score
                                && #[trigger] qualifies(model_stem, cs[j], common_prefix(model_stem, lowercase(text_or_empty(cs[j].stem))))) by {
                                assert(cs[j] == rest[j]);
                                let sj = common_prefix(model_stem, lowercase(text_or_empty(cs[j].stem)));
                                if sj >= score && qualifies(model_stem, cs[j], sj) {
                                    assert(qualifies(model_stem, rest[j], sj));
                                }
                            }
                        }
                    },
                    None => {
                        let i = cs.len() - 1;
                        assert(cs[i] == last);
                        assert(qualifies(model_stem, cs[i], score));
                        assert forall|j: int| 0 <= j < i implies !(common_prefix(model_stem, lowercase(text_or_empty(cs[j].stem))) >= score
                            && #[trigger] qualifies(model_stem, cs[j], common_prefix(model_stem, lowercase(text_or_empty(cs[j].stem))))) by {
                            assert(cs[j] == rest[j]);
                            let sj = common_prefix(model_stem, lowercase(text_or_empty(cs[j].stem)));
                            if sj >= score && qualifies(model_stem, cs[j], sj) {
                                assert(qualifies(model_stem, rest[j], sj));
                            }
                        }
                    },
                }
            },
            None => {},
        }
    }
}

fn candidate_score(model_stem: &String, c: &MmprojCandidate) -> (r: Option<usize>)
    ensures
        match mmproj_score(model_stem@, *c) {
            Some(sc) => r matches Some(x) && x == sc,
            None => r is None,
        },
{
    let is_gguf = match &c.extension {
        Some(e) => str_equals(e.as_str(), "gguf"),
        None => false,
    };
    if !is_gguf {
        return None;
    }
    let fname = match &c.file_name {
        Some(n) => to_lowercase(n.as_str()),
        None => to_lowercase(""),
    };
    proof {
        reveal_strlit("");
        assert(""@ =~= Seq::<char>::empty());
    }
    if !contains_str(fname.as_str(), "mmproj") {
        return None;
    }
    let stem = match &c.stem {
        Some(s) => to_lowercase(s.as_str()),
        None => to_lowercase(""),
    };
    let score = common_prefix_len(model_stem.as_str(), stem.as_str());
    if score > 0 {
        Some(score)
    } else {
        None
    }
}

/// The projector file for a model: among the files next to it, the first
/// with the longest stem prefix shared with the model's lowercased stem, or
/// the empty string when none qualifies.
pub fn select_mmproj(model_stem: Option<String>, candidates: Vec<MmprojCandidate>) -> (r: String)
    ensures
        r@ == match best_mmproj(lowercase(text_or_empty(model_stem)), candidates@) {
            Some(b) => b.0,
            None => Seq::empty(),
        },
{
    let stem = match model_stem {
        Some(s) => to_lowercase(s.as_str()),
        None => to_lowercase(""),
    };
    proof {
        reveal_strlit("");
        assert(""@ =~= Seq::<char>::empty());
    }
    let ghost cs = candidates@;
    let mut best: Option<(String, usize)> = None;
    let mut i: usize = 0;
    assert(cs.take(0) =~= Seq::<MmprojCandidate>::empty());
    while i < candidates.len()
        invariant
            cs == candidates@,
            i <= cs.len(),
            match best_mmproj(stem@, cs.take(i as int)) {
                Some(b) => best matches Some(x) && x.0@ == b.0 && x.1 == b.1,
                None => best is None,
            },
        decreases candidates.len() - i,
    {
        assert(cs.take(i + 1).drop_last() =~= cs.take(i as int));
        assert(cs.take(i + 1).last() == cs[i as int]);
        let c = &candidates[i];
        match candidate_score(&stem, c) {
            Some(score) => {
                let replace = match &best {
                    Some(b) => score > b.1,
                    None => true,
                };
                if replace {
                    best = Some((c.path.clone(), score));
                }
            },
            None => {},
        }
        i = i + 1;
    }
    assert(cs.take(i as int) =~= cs);
    match best {
        Some(b) => b.0,
        None => String::new(),
    }
}

/// The server executables looked for, in order.
pub open spec fn server_exe_candidate(i: int) -> Seq<char> {
    if i == 0 {
        "llama.cpp\\llama-server.exe"@
    } else if i == 1 {
        "..\\llama.cpp\\llama-server.exe"@
    } else {
        "llama-server.exe"@
    }
}

/// The server executables looked for, in order.
pub fn server_exe_candidates() -> (r: Vec<String>)
    ensures
        r@.len() == 3,
        forall|i: int| 0 <= i < 3 ==> (#[trigger] r@[i])@ == server_exe_candidate(i),
{
    let mut v: Vec<String> = Vec::new();
    v.push(String::from_str("llama.cpp\\llama-server.exe"));
    v.push(String::from_str("..\\llama.cpp\\llama-server.exe"));
    v.push(String::from_str("llama-server.exe"));
    v
}

/// The index of the executable used: the first candidate that exists, else
/// the first candidate.
pub open spec fn chosen_exe_index(present: Seq<bool>) -> int {
    if present.len() > 0 && present[0] {
        0
    } else if present.len() > 1 && present[1] {
        1
    } else if present.len() > 2 && present[2] {
        2
    } else {
        0
    }
}

/// The server executable: the first of [`server_exe_candidates`] whose
/// flag in `present` is set, else the first candidate.
pub fn find_server_exe(present: &Vec<bool>) -> (r: String)
    ensures
        r@ == server_exe_candidate(chosen_exe_index(present@)),
{
    let candidates = server_exe_candidates();
    let idx: usize = if present.len() > 0 && present[0] {
        0
    } else if present.len() > 1 && present[1] {
        1
    } else if present.len() > 2 && present[2] {
        2
    } else {
        0
    };
    candidates[idx].clone()
}

/// What a status check decides about a stopped server.
pub struct CrashCheck {
    /// Whether a stop has been reported and not yet cleared.
    pub crash_detected: bool,
    /// The status message to show, if it changes.
    pub message: Option<String>,
    /// Whether to start the server again.
    pub restart: bool,
}

/// The message for a server that stopped: the error text, or the exit code
/// when it is not 0.
pub open spec fn stop_message(current: ServerStatus, code: Option<i32>) -> Seq<char> {
    match current {
        ServerStatus::Error(e) => "Server crashed: "@ + e@,
        ServerStatus::Stopped => if code is Some && code->0 != 0 {
            "Server exited with code "@ + signed_decimal(code->0 as int)
        } else {
            "Server stopped."@
        },
        _ => "Server stopped unexpectedly."@,
    }
}

fn stop_message_text(current: &ServerStatus, code: Option<i32>) -> (r: String)
    ensures
        r@ == stop_message(*current, code),
{
    match current {
        ServerStatus::Error(e) => String::from_str("Server crashed: ").concat(e.as_str()),
        ServerStatus::Stopped => {
            match code {
                Some(c) => if c != 0 {
                    let digits = i64_to_string(c as i64);
                    String::from_str("Server exited with code ").concat(digits.as_str())
                } else {
                    String::from_str("Server stopped.")
                },
                None => String::from_str("Server stopped."),
            }
        },
        _ => String::from_str("Server stopped unexpectedly."),
    }
}

/// Whether the status went from up to stopped since the last check.
pub open spec fn newly_stopped(prev: ServerStatus, current: ServerStatus, crash_detected: bool) -> bool {
    status_is_active(prev) && !status_is_active(current) && !crash_detected
}

/// The decision of a status check. A newly stopped server is reported once;
/// it is restarted when auto-restart is on and a model is ready, and the
/// message then says so. The report is cleared once the server is up again.
pub fn check_crash(
    prev: &ServerStatus,
    current: &ServerStatus,
    crash_detected: bool,
    last_exit_code: Option<i32>,
    auto_restart: bool,
    model_ready: bool,
) -> (r: CrashCheck)
    ensures
        r.restart == (newly_stopped(*prev, *current, crash_detected) && auto_restart
            && model_ready),
        r.crash_detected == if newly_stopped(*prev, *current, crash_detected) {
            true
        } else if status_is_active(*current) {
            false
        } else {
            crash_detected
        },
        newly_stopped(*prev, *current, crash_detected) ==> (r.message matches Some(m) && m@
            == if r.restart {
            stop_message(*current, last_exit_code) + " \u{2014} auto-restarting..."@
        } else {
            stop_message(*current, last_exit_code)
        }),
        !newly_stopped(*prev, *current, crash_detected) ==> r.message is None,
{
    let was_running = is_active(prev);
    let now_stopped = !is_active(current);
    if was_running && now_stopped && !crash_detected {
        let msg = stop_message_text(current, last_exit_code);
        let restart = auto_restart && model_ready;
        let message = if restart {
            msg.concat(" \u{2014} auto-restarting...")
        } else {
            msg
        };
        CrashCheck { crash_detected: true, message: Some(message), restart }
    } else {
        CrashCheck { crash_detected: if !now_stopped {
            false
        } else {
            crash_detected
        }, message: None, restart: false }
    }
}

/// `host:port` as the status messages show it.
pub open spec fn host_port(c: LaunchConfigView) -> Seq<char> {
    c.host + ":"@ + decimal(c.port as nat)
}

fn host_port_text(config: &LaunchConfig) -> (r: String)
    ensures
        r@ == host_port(config@),
{
    let digits = u64_to_string(config.port as u64);
    config.host.clone().concat(":").concat(digits.as_str())
}

/// The message after the server was started: `prefix` and where it listens
/// (`Server launched on ` after a launch, `Restarted on ` after a restart).
pub fn started_message(prefix: &str, config: &LaunchConfig) -> (r: String)
    ensures
        r@ == prefix@ + host_port(config@),
{
    let hp = host_port_text(config);
    String::from_str(prefix).concat(hp.as_str())
}

/// The message after a start failed: `prefix` and the error's text
/// (`Launch error: ` or `Restart failed: `).
pub fn start_failed_message(prefix: &str, e: &ServerError) -> (r: String)
    ensures
        r@ == prefix@ + server_error_text(*e),
{
    let text = e.message();
    String::from_str(prefix).concat(text.as_str())
}

/// The web address of the running server.
pub fn web_ui_url(config: &LaunchConfig) -> (r: String)
    ensures
        r@ == "http://"@ + host_port(config@),
{
    let hp = host_port_text(config);
    String::from_str("http://").concat(hp.as_str())
}

fn clone_opt_string(s: &Option<String>) -> (r: Option<String>)
    ensures
        r == *s,
{
    match s {
        Some(x) => Some(x.clone()),
        None => None,
    }
}

/// The settings after a preset: each field the preset sets replaces the
/// setting (its cache type sets both cache types); the others stay.
pub open spec fn with_preset(c: LaunchConfigView, p: NamedPreset) -> LaunchConfigView {
    LaunchConfigView {
        ctx_size: match p.ctx_size {
            Some(v) => v,
            None => c.ctx_size,
        },
        gpu_layers: match p.gpu_layers {
            Some(v) => v,
            None => c.gpu_layers,
        },
        threads: match p.threads {
            Some(v) => v,
            None => c.threads,
        },
        threads_batch: match p.threads_batch {
            Some(v) => v,
            None => c.threads_batch,
        },
        batch_size: match p.batch_size {
            Some(v) => v,
            None => c.batch_size,
        },
        cache_type_k: match p.cache_type_k {
            Some(v) => v@,
            None => c.cache_type_k,
        },
        cache_type_v: match p.cache_type_k {
            Some(v) => v@,
            None => c.cache_type_v,
        },
        flash_attn: match p.flash_attn {
            Some(v) => v@,
            None => c.flash_attn,
        },
        port: match p.port {
            Some(v) => v,
            None => c.port,
        },
        mlock: match p.mlock {
            Some(v) => v,
            None => c.mlock,
        },
        ..c
    }
}

/// Applying a preset sets every setting the preset gives (its cache type
/// setting both cache types) and keeps every other setting.
pub proof fn law_preset_sets_its_fields(c: LaunchConfigView, p: NamedPreset)
    ensures
        ({
            let r = with_preset(c, p);
            &&& p.ctx_size matches Some(v) ==> r.ctx_size == v
            &&& p.ctx_size is None ==> r.ctx_size == c.ctx_size
            &&& p.gpu_layers matches Some(v) ==> r.gpu_layers == v
            &&& p.gpu_layers is None ==> r.gpu_layers == c.gpu_layers
            &&& p.threads matches Some(v) ==> r.threads == v
            &&& p.threads is None ==> r.threads == c.threads
            &&& p.threads_batch matches Some(v) ==> r.threads_batch == v
            &&& p.threads_batch is None ==> r.threads_batch == c.threads_batch
            &&& p.batch_size matches Some(v) ==> r.batch_size == v
            &&& p.batch_size is None ==> r.batch_size == c.batch_size
            &&& p.cache_type_k matches Some(v) ==> r.cache_type_k == v@ && r.cache_type_v == v@
            &&& p.cache_type_k is None ==> r.cache_type_k == c.cache_type_k && r.cache_type_v
                == c.cache_type_v
            &&& p.flash_attn matches Some(v) ==> r.flash_attn == v@
            &&& p.flash_attn is None ==> r.flash_attn == c.flash_attn
            &&& p.port matches Some(v) ==> r.port == v
            &&& p.port is None ==> r.port == c.port
            &&& p.mlock matches Some(v) ==> r.mlock == v
            &&& p.mlock is None ==> r.mlock == c.mlock
            &&& r.model_path == c.model_path
            &&& r.mmproj_path == c.mmproj_path
            &&& r.host == c.host
            &&& r.ubatch_size == c.ubatch_size
            &&& r.split_mode == c.split_mode
        }),
{
}

/// Applies the settings a preset sets.
pub fn apply_preset_settings(config: &mut LaunchConfig, preset: &NamedPreset)
    ensures
        final(config)@ == with_preset(old(config)@, *preset),
{
    if let Some(v) = preset.ctx_size {
        config.ctx_size = v;
    }
    if let Some(v) = preset.gpu_layers {
        config.gpu_layers = v;
    }
    if let Some(v) = preset.threads {
        config.threads = v;
    }
    if let Some(v) = preset.threads_batch {
        config.threads_batch = v;
    }
    if let Some(v) = preset.batch_size {
        config.batch_size = v;
    }
    if let Some(v) = &preset.cache_type_k {
        config.cache_type_k = v.clone();
        config.cache_type_v = v.clone();
    }
    if let Some(v) = &preset.flash_attn {
        config.flash_attn = v.clone();
    }
    if let Some(v) = preset.port {
        config.port = v;
    }
    if let Some(v) = preset.mlock {
        config.mlock = v;
    }
}

/// The settings at start-up: the defaults, with each saved setting that
/// is set (the saved cache type sets both cache types).
pub open spec fn from_saved(s: SavedConfig) -> LaunchConfigView {
    let c = default_config();
    LaunchConfigView {
        ctx_size: match s.ctx_size {
            Some(v) => v,
            None => c.ctx_size,
        },
        gpu_layers: match s.gpu_layers {
            Some(v) => v,
            None => c.gpu_layers,
        },
        threads: match s.threads {
            Some(v) => v,
            None => c.threads,
        },
        threads_batch: match s.threads_batch {
            Some(v) => v,
            None => c.threads_batch,
        },
        batch_size: match s.batch_size {
            Some(v) => v,
            None => c.batch_size,
        },
        cache_type_k: match s.cache_type_k {
            Some(v) => v@,
            None => c.cache_type_k,
        },
        cache_type_v: match s.cache_type_k {
            Some(v) => v@,
            None => c.cache_type_v,
        },
        flash_attn: match s.flash_attn {
            Some(v) => v@,
            None => c.flash_attn,
        },
        port: match s.port {
            Some(v) => v,
            None => c.port,
        },
        mlock: match s.mlock {
            Some(v) => v,
            None => c.mlock,
        },
        ..c
    }
}

/// The launch settings at start-up from the saved settings.
pub fn config_from_saved(saved: &SavedConfig) -> (r: LaunchConfig)
    ensures
        r@ == from_saved(*saved),
{
    let mut config = LaunchConfig::default();
    if let Some(v) = saved.ctx_size {
        config.ctx_size = v;
    }
    if let Some(v) = saved.gpu_layers {
        config.gpu_layers = v;
    }
    if let Some(v) = saved.threads {
        config.threads = v;
    }
    if let Some(v) = saved.threads_batch {
        config.threads_batch = v;
    }
    if let Some(v) = saved.batch_size {
        config.batch_size = v;
    }
    if let Some(v) = &saved.cache_type_k {
        config.cache_type_k = v.clone();
        config.cache_type_v = v.clone();
    }
    if let Some(v) = &saved.flash_attn {
        config.flash_attn = v.clone();
    }
    if let Some(v) = saved.port {
        config.port = v;
    }
    if let Some(v) = saved.mlock {
        config.mlock = v;
    }
    config
}

/// A text setting that is saved only when not empty.
pub open spec fn nonempty(s: String) -> Option<Seq<char>> {
    if s@.len() > 0 {
        Some(s@)
    } else {
        None
    }
}

/// The model of an optional string.
pub open spec fn opt_text(s: Option<String>) -> Option<Seq<char>> {
    match s {
        Some(x) => Some(x@),
        None => None,
    }
}

fn nonempty_string(s: &String) -> (r: Option<String>)
    ensures
        opt_text(r) == nonempty(*s),
{
    if s.as_str().is_empty() {
        None
    } else {
        Some(s.clone())
    }
}

/// The settings saved for the current state: the folder and model when
/// set, every launch setting, and the two switches.
pub fn saved_config_for(
    models_folder: &String,
    model_path: &String,
    config: &LaunchConfig,
    auto_launch: bool,
    dark_mode: bool,
) -> (r: SavedConfig)
    ensures
        opt_text(r.models_folder) == nonempty(*models_folder),
        opt_text(r.last_model) == nonempty(*model_path),
        r.ctx_size == Some(config.ctx_size),
        r.gpu_layers == Some(config.gpu_layers),
        r.threads == Some(config.threads),
        r.threads_batch == Some(config.threads_batch),
        r.batch_size == Some(config.batch_size),
        opt_text(r.cache_type_k) == Some(config.cache_type_k@),
        opt_text(r.flash_attn) == Some(config.flash_attn@),
        r.port == Some(config.port),
        r.mlock == Some(config.mlock),
        r.auto_launch == Some(auto_launch),
        r.dark_mode == Some(dark_mode),
{
    SavedConfig {
        models_folder: nonempty_string(models_folder),
        last_model: nonempty_string(model_path),
        ctx_size: Some(config.ctx_size),
        gpu_layers: Some(config.gpu_layers),
        threads: Some(config.threads),
        threads_batch: Some(config.threads_batch),
        batch_size: Some(config.batch_size),
        cache_type_k: Some(config.cache_type_k.clone()),
        flash_attn: Some(config.flash_attn.clone()),
        port: Some(config.port),
        mlock: Some(config.mlock),
        auto_launch: Some(auto_launch),
        dark_mode: Some(dark_mode),
    }
}

/// A preset of the current settings under `name`.
pub fn preset_from_config(name: String, model_path: &String, config: &LaunchConfig) -> (r:
    NamedPreset)
    ensures
        r.name == name,
        opt_text(r.model_path) == nonempty(*model_path),
        r.ctx_size == Some(config.ctx_size),
        r.gpu_layers == Some(config.gpu_layers),
        r.threads == Some(config.threads),
        r.threads_batch == Some(config.threads_batch),
        r.batch_size == Some(config.batch_size),
        opt_text(r.cache_type_k) == Some(config.cache_type_k@),
        opt_text(r.flash_attn) == Some(config.flash_attn@),
        r.port == Some(config.port),
        r.mlock == Some(config.mlock),
{
    NamedPreset {
        name,
        model_path: nonempty_string(model_path),
        ctx_size: Some(config.ctx_size),
        gpu_layers: Some(config.gpu_layers),
        threads: Some(config.threads),
        threads_batch: Some(config.threads_batch),
        batch_size: Some(config.batch_size),
        cache_type_k: Some(config.cache_type_k.clone()),
        flash_attn: Some(config.flash_attn.clone()),
        port: Some(config.port),
        mlock: Some(config.mlock),
    }
}

/// Applying a preset made from the current settings leaves the settings
/// as they are.
pub proof fn law_preset_round_trip(c: LaunchConfigView, p: NamedPreset)
    requires
        p.ctx_size == Some(c.ctx_size),
        p.gpu_layers == Some(c.gpu_layers),
        p.threads == Some(c.threads),
        p.threads_batch == Some(c.threads_batch),
        p.batch_size == Some(c.batch_size),
        opt_text(p.cache_type_k) == Some(c.cache_type_k),
        opt_text(p.flash_attn) == Some(c.flash_attn),
        p.port == Some(c.port),
        p.mlock == Some(c.mlock),
        c.cache_type_v == c.cache_type_k,
    ensures
        with_preset(c, p) == c,
{
}

/// The settings for a recomputation: the current settings with the model
/// and projector paths of the loaded model.
pub fn overrides_for(config: &LaunchConfig, model_path: &String, mmproj_path: &String) -> (r:
    LaunchConfig)
    ensures
        r@ == (LaunchConfigView { model_path: model_path@, mmproj_path: mmproj_path@, ..config@ }),
{
    LaunchConfig {
        model_path: model_path.clone(),
        mmproj_path: mmproj_path.clone(),
        ctx_size: config.ctx_size,
        gpu_layers: config.gpu_layers,
        threads: config.threads,
        threads_batch: config.threads_batch,
        batch_size: config.batch_size,
        ubatch_size: config.ubatch_size,
        flash_attn: config.flash_attn.clone(),
        cache_type_k: config.cache_type_k.clone(),
        cache_type_v: config.cache_type_v.clone(),
        mlock: config.mlock,
        port: config.port,
        host: config.host.clone(),
        split_mode: config.split_mode.clone(),
    }
}

/// The message after an import.
pub fn import_summary(count: usize, added: usize, replaced: usize) -> (r: String)
    ensures
        r@ == "Imported "@ + decimal(count as nat) + " preset(s): "@ + decimal(added as nat)
            + " added, "@ + decimal(replaced as nat) + " replaced."@,
{
    let c = u64_to_string(count as u64);
    let a = u64_to_string(added as u64);
    let rp = u64_to_string(replaced as u64);
    String::from_str("Imported ").concat(c.as_str()).concat(" preset(s): ").concat(a.as_str()).concat(
        " added, ",
    ).concat(rp.as_str()).concat(" replaced.")
}

/// The largest context size the slider offers: the model's context length,
/// at least 4096, at most 128000.
pub fn ctx_slider_max(info: &GgufInfo) -> (r: u64)
    ensures
        r == if info.context_length < 4096 {
            4096
        } else if info.context_length > MAX_DEFAULT_CTX {
            MAX_DEFAULT_CTX
        } else {
            info.context_length
        },
{
    let at_least: u64 = if info.context_length > 4096 {
        info.context_length
    } else {
        4096
    };
    if at_least < MAX_DEFAULT_CTX {
        at_least
    } else {
        MAX_DEFAULT_CTX
    }
}

/// The largest thread count the sliders offer: the logical cores, at least 1.
pub fn thread_slider_max(hw: &HardwareInfo) -> (r: u64)
    ensures
        r == if hw.logical_cores > 1 {
            hw.logical_cores as u64
        } else {
            1
        },
{
    if hw.logical_cores > 1 {
        hw.logical_cores as u64
    } else {
        1
    }
}

/// The command line shown for the settings.
pub fn command_preview(config: &LaunchConfig) -> (r: String)
    ensures
        r@ == "llama-server.exe "@ + joined(server_args(config@), " "@),
{
    let args = config.to_args();
    let tail = join_strings(&args, " ");
    String::from_str("llama-server.exe ").concat(tail.as_str())
}

} // verus!
