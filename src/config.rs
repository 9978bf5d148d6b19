use vstd::prelude::*;
use vstd::string::StringExecFns;
use crate::supervisor::ServiceKind;

verus! {

/// `base` with the relative component `name` appended, a `/` between them
/// unless `base` is empty or already ends with one.
pub open spec fn joined(base: Seq<char>, name: Seq<char>) -> Seq<char> {
    if base.len() == 0 || base.last() == '/' {
        base + name
    } else {
        base + seq!['/'] + name
    }
}

/// Relies on str::ends_with with a char pattern: whether `c` is the last char.
#[verifier::external_body]
fn ends_with_char(s: &str, c: char) -> (r: bool)
    ensures
        r == (s@.len() > 0 && s@.last() == c),
{
    s.ends_with(c)
}

/// Appends the relative component `name` to the path `base`.
pub fn join_path(base: &str, name: &str) -> (r: String)
    ensures
        r@ == joined(base@, name@),
{
    let mut r = base.to_owned();
    if !base.is_empty() && !ends_with_char(base, '/') {
        r.append("/");
        proof {
            reveal_strlit("/");
        }
    }
    r.append(name);
    r
}

/// The application's configuration directory under the platform's `config_base`.
pub fn get_config_dir(config_base: &str) -> (r: String)
    ensures
        r@ == joined(config_base@, "cliniscribe"@),
{
    join_path(config_base, "cliniscribe")
}

/// Where audio files are kept by default, under the platform's `data_local_base`.
pub fn get_default_data_dir(data_local_base: &str) -> (r: String)
    ensures
        r@ == joined(joined(data_local_base@, "cliniscribe"@), "audio_storage"@),
{
    let dir = join_path(data_local_base, "cliniscribe");
    join_path(dir.as_str(), "audio_storage")
}

/// The configuration file under the platform's `config_base`.
pub fn get_config_file(config_base: &str) -> (r: String)
    ensures
        r@ == joined(joined(config_base@, "cliniscribe"@), "config.json"@),
{
    let dir = get_config_dir(config_base);
    join_path(dir.as_str(), "config.json")
}

/// User settings. The summary ratio is kept in thousandths.
#[derive(Clone, Debug)]
pub struct AppConfig {
    pub setup_completed: bool,
    pub whisper_model: String,
    pub ollama_model: String,
    pub use_gpu: bool,
    pub default_ratio_milli: u32,
    pub default_subject: String,
    pub data_directory: String,
    pub auto_delete_days: u32,
    pub theme: String,
    pub auto_updates: bool,
}

impl AppConfig {
    /// The settings of a first run, with audio kept under `data_local_base`.
    pub fn default_in(data_local_base: &str) -> (r: AppConfig)
        ensures
            !r.setup_completed,
            r.whisper_model@ == "base"@,
            r.ollama_model@ == "llama3.1:8b"@,
            !r.use_gpu,
            r.default_ratio_milli == 150,
            r.default_subject@.len() == 0,
            r.data_directory@ == joined(joined(data_local_base@, "cliniscribe"@), "audio_storage"@),
            r.auto_delete_days == 7,
            r.theme@ == "light"@,
            r.auto_updates,
    {
        let r = AppConfig {
            setup_completed: false,
            whisper_model: "base".to_owned(),
            ollama_model: "llama3.1:8b".to_owned(),
            use_gpu: false,
            default_ratio_milli: 150,
            default_subject: String::new(),
            data_directory: get_default_data_dir(data_local_base),
            auto_delete_days: 7,
            theme: "light".to_owned(),
            auto_updates: true,
        };
        r
    }

    /// Whether the first-run setup is still to be done.
    pub fn is_first_run(&self) -> (r: bool)
        ensures
            r == !self.setup_completed,
    {
        !self.setup_completed
    }

    /// Marks the first-run setup as done; nothing else changes.
    pub fn complete_setup(&mut self)
        ensures
            final(self).setup_completed,
            final(self).whisper_model == old(self).whisper_model,
            final(self).ollama_model == old(self).ollama_model,
            final(self).use_gpu == old(self).use_gpu,
            final(self).default_ratio_milli == old(self).default_ratio_milli,
            final(self).default_subject == old(self).default_subject,
            final(self).data_directory == old(self).data_directory,
            final(self).auto_delete_days == old(self).auto_delete_days,
            final(self).theme == old(self).theme,
            final(self).auto_updates == old(self).auto_updates,
    {
        self.setup_completed = true;
    }
}

/// How to launch one service.
#[derive(Clone, Debug)]
pub struct ServiceDescriptor {
    pub service: ServiceKind,
    pub program: String,
    pub args: Vec<String>,
    pub working_dir: String,
}

pub open spec fn arg_views(args: Seq<String>) -> Seq<Seq<char>> {
    args.map_values(|a: String| a@)
}

/// The daemon: the bundled `ollama` program run as `ollama serve` in the
/// resource directory.
pub fn daemon_descriptor(resource_dir: &str) -> (r: ServiceDescriptor)
    ensures
        r.service == ServiceKind::Daemon,
        r.program@ == joined(resource_dir@, "ollama"@),
        arg_views(r.args@) == seq!["serve"@],
        r.working_dir@ == resource_dir@,
{
    let mut args: Vec<String> = Vec::new();
    args.push("serve".to_owned());
    proof {
        assert(arg_views(args@) =~= seq!["serve"@]);
    }
    ServiceDescriptor {
        service: ServiceKind::Daemon,
        program: join_path(resource_dir, "ollama"),
        args,
        working_dir: resource_dir.to_owned(),
    }
}

/// The backend: the bundled API program, told which speech model to load and
/// where audio lives, with `--gpu` when the configuration asks for it.
pub fn backend_descriptor(resource_dir: &str, config: &AppConfig) -> (r: ServiceDescriptor)
    ensures
        r.service == ServiceKind::Backend,
        r.program@ == joined(joined(resource_dir@, "api"@), "cliniscribe-api"@),
        arg_views(r.args@) == seq!["--whisper-model"@, config.whisper_model@, "--data-dir"@, config.data_directory@]
            + if config.use_gpu { seq!["--gpu"@] } else { Seq::<Seq<char>>::empty() },
        r.working_dir@ == joined(resource_dir@, "api"@),
{
    let dir = join_path(resource_dir, "api");
    let program = join_path(dir.as_str(), "cliniscribe-api");
    let mut args: Vec<String> = Vec::new();
    args.push("--whisper-model".to_owned());
    args.push(config.whisper_model.clone());
    args.push("--data-dir".to_owned());
    args.push(config.data_directory.clone());
    if config.use_gpu {
        args.push("--gpu".to_owned());
    }
    proof {
        assert(arg_views(args@) =~= seq!["--whisper-model"@, config.whisper_model@, "--data-dir"@, config.data_directory@]
            + if config.use_gpu { seq!["--gpu"@] } else { Seq::<Seq<char>>::empty() });
    }
    ServiceDescriptor { service: ServiceKind::Backend, program, args, working_dir: dir }
}

} // verus!
