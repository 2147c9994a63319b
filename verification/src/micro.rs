//! The micro-VM runner: named interpreter images, a registry of live
//! instances with private working directories, and script jobs built for the
//! runtime to spawn.
//!
//! Starting an instance is two-phased because an initialisation script runs
//! outside: `begin_start` allocates the instance and describes the work,
//! `commit_start` registers it once the runtime reports success.

use vstd::prelude::*;

use crate::errors::SandboxError;
use crate::path::ensure_absolute_base;
use crate::run::{bound_output, RawProcessOutput};
use crate::text::{decimal, render_u64, trimmed, trimmed_start_by, trim_text};

verus! {

/// The view of an environment list, pair by pair.
pub open spec fn env_views(env: Seq<(String, String)>) -> Seq<(Seq<char>, Seq<char>)> {
    env.map_values(|p: (String, String)| (p.0@, p.1@))
}

/// Argument lists are kept trimmed, with empty entries dropped.
pub open spec fn cleaned_args(args: Seq<Seq<char>>) -> Seq<Seq<char>>
    decreases args.len(),
{
    if args.len() == 0 {
        Seq::<Seq<char>>::empty()
    } else {
        let rest = cleaned_args(args.drop_last());
        if trimmed(args.last()).len() > 0 {
            rest.push(trimmed(args.last()))
        } else {
            rest
        }
    }
}

/// Environment lists are kept with trimmed keys, entries with empty keys
/// dropped, values untouched.
pub open spec fn cleaned_env(env: Seq<(Seq<char>, Seq<char>)>) -> Seq<(Seq<char>, Seq<char>)>
    decreases env.len(),
{
    if env.len() == 0 {
        Seq::<(Seq<char>, Seq<char>)>::empty()
    } else {
        let rest = cleaned_env(env.drop_last());
        if trimmed(env.last().0).len() > 0 {
            rest.push((trimmed(env.last().0), env.last().1))
        } else {
            rest
        }
    }
}

fn clean_args_exec(args: Vec<String>) -> (r: Vec<String>)
    ensures
        r.deep_view() == cleaned_args(args.deep_view()),
{
    let mut out: Vec<String> = Vec::new();
    let mut i: usize = 0;
    proof {
        assert(args.deep_view().subrange(0, 0) =~= Seq::<Seq<char>>::empty());
    }
    while i < args.len()
        invariant
            i <= args@.len(),
            args.deep_view().len() == args@.len(),
            forall|j: int| 0 <= j < args@.len() ==> args.deep_view()[j] == args@[j]@,
            out.deep_view() == cleaned_args(args.deep_view().subrange(0, i as int)),
        decreases args@.len() - i,
    {
        let t = trim_text(args[i].as_str());
        proof {
            let dv = args.deep_view();
            assert(dv.subrange(0, i + 1 as int).drop_last() =~= dv.subrange(0, i as int));
            assert(dv.subrange(0, i + 1 as int).last() == dv[i as int]);
        }
        if t.as_str().unicode_len() > 0 {
            out.push(t);
            proof {
                assert(out.deep_view() =~= cleaned_args(
                    args.deep_view().subrange(0, i + 1 as int),
                ));
            }
        } else {
            proof {
                assert(out.deep_view() =~= cleaned_args(
                    args.deep_view().subrange(0, i + 1 as int),
                ));
            }
        }
        i = i + 1;
    }
    proof {
        assert(args.deep_view().subrange(0, args.deep_view().len() as int) =~= args.deep_view());
    }
    out
}

fn clean_env_exec(env: Vec<(String, String)>) -> (r: Vec<(String, String)>)
    ensures
        env_views(r@) == cleaned_env(env_views(env@)),
{
    let mut out: Vec<(String, String)> = Vec::new();
    let mut i: usize = 0;
    proof {
        assert(env_views(env@).subrange(0, 0) =~= Seq::<(Seq<char>, Seq<char>)>::empty());
        assert(env_views(out@) =~= cleaned_env(env_views(env@).subrange(0, 0)));
    }
    while i < env.len()
        invariant
            i <= env@.len(),
            env_views(out@) == cleaned_env(env_views(env@).subrange(0, i as int)),
        decreases env@.len() - i,
    {
        let key = trim_text(env[i].0.as_str());
        proof {
            let dv = env_views(env@);
            assert(dv.subrange(0, i + 1 as int).drop_last() =~= dv.subrange(0, i as int));
            assert(dv.subrange(0, i + 1 as int).last() == dv[i as int]);
            assert(dv[i as int] == (env@[i as int].0@, env@[i as int].1@));
        }
        if key.as_str().unicode_len() > 0 {
            let pair = (key, env[i].1.clone());
            out.push(pair);
            proof {
                assert(env_views(out@) =~= cleaned_env(env_views(env@).subrange(0, i + 1 as int)));
            }
        } else {
            proof {
                assert(env_views(out@) =~= cleaned_env(env_views(env@).subrange(0, i + 1 as int)));
            }
        }
        i = i + 1;
    }
    proof {
        assert(env_views(env@).subrange(0, env_views(env@).len() as int) =~= env_views(env@));
    }
    out
}

/// A named interpreter template: command, arguments, script file extension
/// and injected environment.
#[derive(Debug)]
pub struct MicroImage {
    name: String,
    command: String,
    args: Vec<String>,
    extension: String,
    env: Vec<(String, String)>,
}

impl MicroImage {
    pub closed spec fn spec_name(&self) -> Seq<char> {
        self.name@
    }

    pub closed spec fn spec_command(&self) -> Seq<char> {
        self.command@
    }

    pub closed spec fn spec_args(&self) -> Seq<Seq<char>> {
        self.args.deep_view()
    }

    pub closed spec fn spec_extension(&self) -> Seq<char> {
        self.extension@
    }

    pub closed spec fn spec_env(&self) -> Seq<(Seq<char>, Seq<char>)> {
        env_views(self.env@)
    }

    /// Validates an image: name and command must be non-empty after
    /// trimming, the extension non-empty after trimming and stripping
    /// leading dots; arguments and environment are cleaned.
    pub fn new(
        name: &str,
        command: &str,
        args: Vec<String>,
        extension: &str,
        env: Vec<(String, String)>,
    ) -> (r: Result<MicroImage, SandboxError>)
        ensures
            ({
                let n = trimmed(name@);
                let c = trimmed(command@);
                let e = trimmed_start_by(trimmed(extension@), |ch: char| ch == '.');
                if n.len() == 0 || c.len() == 0 || e.len() == 0 {
                    r matches Err(err) && err is InvalidOperation
                } else {
                    r matches Ok(img) && img.spec_name() == n && img.spec_command() == c
                        && img.spec_extension() == e && img.spec_args() == cleaned_args(
                        args.deep_view(),
                    ) && img.spec_env() == cleaned_env(env_views(env@))
                }
            }),
    {
        let name = trim_text(name);
        if name.as_str().unicode_len() == 0 {
            return Err(SandboxError::InvalidOperation(String::from_str(
                "micro image name must not be empty",
            )));
        }
        let command = trim_text(command);
        if command.as_str().unicode_len() == 0 {
            let mut msg = String::from_str("micro image '");
            msg.append(name.as_str());
            msg.append("' command must not be empty");
            return Err(SandboxError::InvalidOperation(msg));
        }
        let extension = strip_leading_dots(trim_text(extension).as_str());
        if extension.as_str().unicode_len() == 0 {
            let mut msg = String::from_str("micro image '");
            msg.append(name.as_str());
            msg.append("' extension must not be empty");
            return Err(SandboxError::InvalidOperation(msg));
        }
        let args = clean_args_exec(args);
        let env = clean_env_exec(env);
        Ok(MicroImage { name, command, args, extension, env })
    }

    pub fn name(&self) -> (r: &str)
        ensures
            r@ == self.spec_name(),
    {
        self.name.as_str()
    }

    pub fn command(&self) -> (r: &str)
        ensures
            r@ == self.spec_command(),
    {
        self.command.as_str()
    }

    pub fn args(&self) -> (r: &Vec<String>)
        ensures
            r.deep_view() == self.spec_args(),
    {
        &self.args
    }

    pub fn extension(&self) -> (r: &str)
        ensures
            r@ == self.spec_extension(),
    {
        self.extension.as_str()
    }

    pub fn env(&self) -> (r: &Vec<(String, String)>)
        ensures
            env_views(r@) == self.spec_env(),
    {
        &self.env
    }

    /// A field-for-field copy.
    pub fn duplicate(&self) -> (r: MicroImage)
        ensures
            image_like(r, *self),
    {
        MicroImage {
            name: self.name.clone(),
            command: self.command.clone(),
            args: crate::text::copy_strings(&self.args),
            extension: self.extension.clone(),
            env: crate::text::copy_pairs(&self.env),
        }
    }
}

fn strip_leading_dots(s: &str) -> (r: String)
    ensures
        r@ == trimmed_start_by(s@, |ch: char| ch == '.'),
{
    let n = s.unicode_len();
    let mut start: usize = 0;
    while start < n && s.get_char(start) == '.'
        invariant
            start <= n,
            n == s@.len(),
            forall|j: int| 0 <= j < start ==> s@[j] == '.',
        decreases n - start,
    {
        start = start + 1;
    }
    let piece = s.substring_char(start, n);
    proof {
        lemma_trim_start_dots(s@, start as int);
    }
    String::from_str(piece)
}

proof fn lemma_trim_start_dots(s: Seq<char>, i: int)
    requires
        0 <= i <= s.len(),
        forall|j: int| 0 <= j < i ==> s[j] == '.',
        i < s.len() ==> s[i] != '.',
    ensures
        trimmed_start_by(s, |ch: char| ch == '.') == s.subrange(i, s.len() as int),
    decreases i,
{
    let p = |ch: char| ch == '.';
    if i == 0 {
        if s.len() == 0 || !p(s.first()) {
            assert(s.subrange(0, s.len() as int) =~= s);
        } else {
            assert(false);
        }
    } else {
        let t = s.drop_first();
        assert(forall|j: int| 0 <= j < i - 1 ==> t[j] == '.');
        lemma_trim_start_dots(t, i - 1);
        assert(t.subrange(i - 1, t.len() as int) =~= s.subrange(i, s.len() as int));
    }
}

/// Two images that agree in every observable field.
pub open spec fn image_like(a: MicroImage, b: MicroImage) -> bool {
    a.spec_name() == b.spec_name() && a.spec_command() == b.spec_command() && a.spec_args()
        == b.spec_args() && a.spec_extension() == b.spec_extension() && a.spec_env() == b.spec_env()
}

/// Whether some image of `images` is named `name`.
pub open spec fn has_image(images: Seq<MicroImage>, name: Seq<char>) -> bool {
    exists|i: int| 0 <= i < images.len() && images[i].spec_name() == name
}

/// Image names are pairwise distinct.
pub open spec fn distinct_image_names(images: Seq<MicroImage>) -> bool {
    forall|i: int, j: int|
        0 <= i < j < images.len() ==> images[i].spec_name() != images[j].spec_name()
}

/// Immutable settings of the micro-VM runner.
#[derive(Debug)]
pub struct MicroConfig {
    root: String,
    images: Vec<MicroImage>,
    default_timeout_ms: u64,
    max_timeout_ms: u64,
    max_output_bytes: usize,
    base_env: Vec<(String, String)>,
}

impl MicroConfig {
    pub closed spec fn spec_root(&self) -> Seq<char> {
        self.root@
    }

    pub closed spec fn spec_images(&self) -> Seq<MicroImage> {
        self.images@
    }

    pub closed spec fn spec_default_timeout_ms(&self) -> u64 {
        self.default_timeout_ms
    }

    pub closed spec fn spec_max_timeout_ms(&self) -> u64 {
        self.max_timeout_ms
    }

    pub closed spec fn spec_max_output_bytes(&self) -> usize {
        self.max_output_bytes
    }

    pub closed spec fn spec_base_env(&self) -> Seq<(Seq<char>, Seq<char>)> {
        env_views(self.base_env@)
    }

    /// Validates the runner's settings: a positive output cap, a maximum
    /// timeout at least the default, an absolute root, at least one image,
    /// and no two images of one name. The base environment is cleaned.
    pub fn new(
        root: &str,
        images: Vec<MicroImage>,
        default_timeout_ms: u64,
        max_timeout_ms: u64,
        max_output_bytes: usize,
        base_env: Vec<(String, String)>,
    ) -> (r: Result<MicroConfig, SandboxError>)
        ensures
            r is Ok <==> max_output_bytes > 0 && max_timeout_ms >= default_timeout_ms
                && root@.len() > 0 && root@.first() == '/' && images@.len() > 0
                && distinct_image_names(images@),
            r matches Ok(c) ==> c.spec_root() == root@ && c.spec_images() == images@
                && c.spec_default_timeout_ms() == default_timeout_ms && c.spec_max_timeout_ms()
                == max_timeout_ms && c.spec_max_output_bytes() == max_output_bytes
                && c.spec_base_env() == cleaned_env(env_views(base_env@)),
            r matches Err(e) ==> e is InvalidOperation,
    {
        if max_output_bytes == 0 {
            return Err(SandboxError::InvalidOperation(String::from_str(
                "micro sandbox max_output_bytes must be greater than zero",
            )));
        }
        if max_timeout_ms < default_timeout_ms {
            return Err(SandboxError::InvalidOperation(String::from_str(
                "micro sandbox max_timeout must be greater than or equal to default_timeout",
            )));
        }
        let anchored = ensure_absolute_base(root)?;
        if images.len() == 0 {
            return Err(SandboxError::InvalidOperation(String::from_str(
                "no micro images configured",
            )));
        }
        let mut i: usize = 1;
        while i < images.len()
            invariant
                1 <= i,
                i <= images@.len() || images@.len() == 0,
                forall|a: int, b: int|
                    0 <= a < b < i && b < images@.len() ==> images@[a].spec_name()
                        != images@[b].spec_name(),
            decreases images@.len() - i,
        {
            let mut j: usize = 0;
            while j < i
                invariant
                    j <= i < images@.len(),
                    forall|a: int| 0 <= a < j ==> images@[a].spec_name() != images@[i as int].spec_name(),
                decreases i - j,
            {
                if crate::text::str_eq(images[j].name(), images[i].name()) {
                    return Err(SandboxError::InvalidOperation(String::from_str(
                        "duplicate micro image names are not permitted",
                    )));
                }
                j = j + 1;
            }
            i = i + 1;
        }
        let base_env = clean_env_exec(base_env);
        Ok(MicroConfig {
            root: anchored,
            images,
            default_timeout_ms,
            max_timeout_ms,
            max_output_bytes,
            base_env,
        })
    }

    pub fn root(&self) -> (r: &str)
        ensures
            r@ == self.spec_root(),
    {
        self.root.as_str()
    }

    pub fn default_timeout(&self) -> (r: u64)
        ensures
            r == self.spec_default_timeout_ms(),
    {
        self.default_timeout_ms
    }

    pub fn max_timeout(&self) -> (r: u64)
        ensures
            r == self.spec_max_timeout_ms(),
    {
        self.max_timeout_ms
    }

    pub fn max_output_bytes(&self) -> (r: usize)
        ensures
            r == self.spec_max_output_bytes(),
    {
        self.max_output_bytes
    }

    pub fn images(&self) -> (r: &Vec<MicroImage>)
        ensures
            r@ == self.spec_images(),
    {
        &self.images
    }

    pub fn base_env(&self) -> (r: &Vec<(String, String)>)
        ensures
            env_views(r@) == self.spec_base_env(),
    {
        &self.base_env
    }

    /// Looks an image up by name.
    pub fn image(&self, name: &str) -> (r: Option<&MicroImage>)
        ensures
            r is Some <==> has_image(self.spec_images(), name@),
            r matches Some(img) ==> img.spec_name() == name@ && exists|i: int|
                0 <= i < self.spec_images().len() && self.spec_images()[i] == *img,
    {
        let mut i: usize = 0;
        while i < self.images.len()
            invariant
                i <= self.images@.len(),
                forall|j: int| 0 <= j < i ==> self.images@[j].spec_name() != name@,
            decreases self.images@.len() - i,
        {
            if crate::text::str_eq(self.images[i].name(), name) {
                proof {
                    assert(self.spec_images()[i as int] == self.images@[i as int]);
                }
                return Some(&self.images[i]);
            }
            i = i + 1;
        }
        None
    }
}

/// One live instance as the registry records it.
#[derive(Debug)]
pub struct MicroVm {
    pub id: u64,
    pub image: String,
    pub workdir: String,
}

/// A request to start an instance of a named image, optionally running an
/// initialisation script once.
#[derive(Debug)]
pub struct MicroStartRequest {
    pub image: String,
    pub init_script: Option<String>,
}

/// A request to run code on a live instance.
#[derive(Debug)]
pub struct MicroExecuteRequest {
    pub vm_id: u64,
    pub code: String,
    pub timeout_ms: Option<u64>,
}

/// A script the runtime must run: write `contents` to `script_path`, spawn
/// `command` with `args` under the instance's working directory and exactly
/// the environment given, enforce the deadline and the output cap.
#[derive(Debug)]
pub struct MicroScriptJob {
    pub script_path: String,
    pub contents: String,
    pub command: String,
    pub args: Vec<String>,
    pub env: Vec<(String, String)>,
    pub workdir: String,
    pub timeout_ms: u64,
    pub max_output_bytes: usize,
}

/// A started instance as handed to callers.
#[derive(Debug)]
pub struct MicroInstance {
    id: u64,
    image: String,
    workdir: String,
}

impl MicroInstance {
    pub closed spec fn spec_id(&self) -> u64 {
        self.id
    }

    pub closed spec fn spec_image(&self) -> Seq<char> {
        self.image@
    }

    pub closed spec fn spec_workdir(&self) -> Seq<char> {
        self.workdir@
    }

    pub fn id(&self) -> (r: u64)
        ensures
            r == self.spec_id(),
    {
        self.id
    }

    pub fn image(&self) -> (r: &str)
        ensures
            r@ == self.spec_image(),
    {
        self.image.as_str()
    }

    pub fn workdir(&self) -> (r: &str)
        ensures
            r@ == self.spec_workdir(),
    {
        self.workdir.as_str()
    }
}

/// What a finished script run reports.
#[derive(Debug)]
pub struct MicroOutput {
    pub exit_code: i32,
    pub stdout: Vec<u8>,
    pub stderr: Vec<u8>,
    pub duration_ms: u64,
}

/// The plan `begin_start` produces: a fresh instance id, its working
/// directory, the image to run, and the initialisation job if one is owed.
#[derive(Debug)]
pub struct MicroStartPlan {
    pub vm_id: u64,
    pub image: MicroImage,
    pub workdir: String,
    pub init: Option<MicroScriptJob>,
}

/// Whether some record of `instances` carries `id`.
pub open spec fn contains_id(instances: Seq<MicroVm>, id: u64) -> bool {
    exists|i: int| 0 <= i < instances.len() && instances[i].id == id
}

/// Instance ids are pairwise distinct.
pub open spec fn unique_ids(instances: Seq<MicroVm>) -> bool {
    forall|i: int, j: int| 0 <= i < j < instances.len() ==> instances[i].id != instances[j].id
}

/// The private working directory of instance `id` under `root`.
pub open spec fn workdir_spec(root: Seq<char>, id: u64) -> Seq<char> {
    root + "/vm-"@ + decimal(id)
}

/// The file name of script number `seq_no` with extension `ext`.
pub open spec fn script_name_spec(seq_no: u64, ext: Seq<char>) -> Seq<char> {
    "script_"@ + decimal(seq_no) + "."@ + ext
}

/// `code` with a final newline appended when it lacks one.
pub open spec fn with_trailing_newline(code: Seq<char>) -> Seq<char> {
    if code.len() > 0 && code.last() == '\n' {
        code
    } else {
        code.push('\n')
    }
}

/// The exact environment a script runs with: the configured base, then the
/// instance's `HOME` and the image marker, then the image's own variables,
/// applied in that order (later entries win).
pub open spec fn script_env_spec(
    base: Seq<(Seq<char>, Seq<char>)>,
    workdir: Seq<char>,
    image_name: Seq<char>,
    image_env: Seq<(Seq<char>, Seq<char>)>,
) -> Seq<(Seq<char>, Seq<char>)> {
    base + seq![("HOME"@, workdir), ("MICRO_SANDBOX_IMAGE"@, image_name)] + image_env
}

/// Relates a script job to the image, configuration and instance it was
/// built for.
pub open spec fn script_job_matches(
    job: MicroScriptJob,
    img: MicroImage,
    cfg: MicroConfig,
    workdir: Seq<char>,
    code: Seq<char>,
    timeout_ms: u64,
    seq_no: u64,
) -> bool {
    &&& job.script_path@ == workdir + "/"@ + script_name_spec(seq_no, img.spec_extension())
    &&& job.contents@ == with_trailing_newline(code)
    &&& job.command@ == img.spec_command()
    &&& job.args.deep_view() == img.spec_args().push(job.script_path@)
    &&& env_views(job.env@) == script_env_spec(
        cfg.spec_base_env(),
        workdir,
        img.spec_name(),
        img.spec_env(),
    )
    &&& job.workdir@ == workdir
    &&& job.timeout_ms == timeout_ms
    &&& job.max_output_bytes == cfg.spec_max_output_bytes()
}

/// The micro-VM runner: configuration plus the registry of live instances.
#[derive(Debug)]
pub struct SandboxMicro {
    config: MicroConfig,
    instances: Vec<MicroVm>,
    next_vm_id: u64,
    next_script_seq: u64,
}

impl SandboxMicro {
    pub closed spec fn spec_config(&self) -> MicroConfig {
        self.config
    }

    pub closed spec fn spec_instances(&self) -> Seq<MicroVm> {
        self.instances@
    }

    pub closed spec fn spec_next_vm_id(&self) -> u64 {
        self.next_vm_id
    }

    pub closed spec fn spec_next_script_seq(&self) -> u64 {
        self.next_script_seq
    }

    /// The registry's invariant: ids are unique and below the allocator.
    pub open spec fn wf(&self) -> bool {
        &&& unique_ids(self.spec_instances())
        &&& forall|i: int|
            0 <= i < self.spec_instances().len() ==> (#[trigger] self.spec_instances()[i]).id
                < self.spec_next_vm_id()
    }

    /// Finds the registry index of `vm_id`.
    fn find_instance(&self, vm_id: u64) -> (r: Option<usize>)
        ensures
            r matches Some(i) ==> i < self.spec_instances().len() && self.spec_instances()[
                i as int
            ].id == vm_id,
            r is None ==> !contains_id(self.spec_instances(), vm_id),
    {
        let mut idx: usize = 0;
        let n = self.instances.len();
        while idx < n
            invariant
                idx <= n,
                n == self.spec_instances().len(),
                forall|j: int| 0 <= j < idx ==> self.spec_instances()[j].id != vm_id,
            decreases n - idx,
        {
            if self.instances[idx].id == vm_id {
                return Some(idx);
            }
            idx = idx + 1;
        }
        None
    }

    pub fn new(config: MicroConfig) -> (r: SandboxMicro)
        ensures
            r.wf(),
            r.spec_config() == config,
            r.spec_instances() == Seq::<MicroVm>::empty(),
    {
        let r = SandboxMicro { config, instances: Vec::new(), next_vm_id: 0, next_script_seq: 0 };
        proof {
            assert(r.spec_instances() =~= Seq::<MicroVm>::empty());
        }
        r
    }

    pub fn config(&self) -> (r: &MicroConfig)
        ensures
            *r == self.spec_config(),
    {
        &self.config
    }

    /// Builds one script job against `img` in `workdir`, consuming one
    /// script sequence number.
    fn build_script_job(&mut self, img: &MicroImage, workdir: &str, code: &str, timeout_ms: u64) -> (r:
        MicroScriptJob)
        requires
            old(self).spec_next_script_seq() < u64::MAX,
        ensures
            final(self).spec_config() == old(self).spec_config(),
            final(self).spec_instances() == old(self).spec_instances(),
            final(self).spec_next_vm_id() == old(self).spec_next_vm_id(),
            final(self).spec_next_script_seq() == old(self).spec_next_script_seq() + 1,
            script_job_matches(
                r,
                *img,
                old(self).spec_config(),
                workdir@,
                code@,
                timeout_ms,
                old(self).spec_next_script_seq(),
            ),
    {
        let seq_no = self.next_script_seq;
        self.next_script_seq = self.next_script_seq + 1;
        let mut name = String::from_str("script_");
        name.append(render_u64(seq_no).as_str());
        name.append(".");
        name.append(img.extension());
        let mut script_path = String::from_str(workdir);
        script_path.append("/");
        script_path.append(name.as_str());
        let mut contents = String::from_str(code);
        let n = code.unicode_len();
        if n == 0 || code.get_char(n - 1) != '\n' {
            contents.append("\n");
            proof {
                reveal_strlit("\n");
                assert(contents@ =~= with_trailing_newline(code@));
            }
        }
        let mut args = crate::text::copy_strings(img.args());
        args.push(script_path.clone());
        proof {
            assert(args.deep_view() =~= img.spec_args().push(script_path@));
        }
        let mut env = crate::text::copy_pairs(&self.config.base_env);
        let pair_home = (String::from_str("HOME"), String::from_str(workdir));
        env.push(pair_home);
        let pair_marker = (String::from_str("MICRO_SANDBOX_IMAGE"), String::from_str(img.name()));
        env.push(pair_marker);
        let mut k: usize = 0;
        let image_env = img.env();
        let ghost env_mid = env@;
        while k < image_env.len()
            invariant
                k <= image_env@.len(),
                env@ == env_mid + image_env@.subrange(0, k as int),
            decreases image_env@.len() - k,
        {
            let pair = (image_env[k].0.clone(), image_env[k].1.clone());
            env.push(pair);
            proof {
                assert(env@ =~= env_mid + image_env@.subrange(0, k + 1 as int));
            }
            k = k + 1;
        }
        proof {
            assert(image_env@.subrange(0, image_env@.len() as int) =~= image_env@);
            assert(env_views(env@) =~= script_env_spec(
                self.spec_config().spec_base_env(),
                workdir@,
                img.spec_name(),
                img.spec_env(),
            ));
        }
        MicroScriptJob {
            script_path,
            contents,
            command: String::from_str(img.command()),
            args,
            env,
            workdir: String::from_str(workdir),
            timeout_ms,
            max_output_bytes: self.config.max_output_bytes,
        }
    }

    /// Starts an instance of a named image: allocates a fresh id and its
    /// working directory, and describes the initialisation run if the
    /// request carries a non-blank script. The instance is registered only
    /// by [`SandboxMicro::commit_start`], once the runtime has created the
    /// directory and the initialisation has succeeded.
    pub fn begin_start(&mut self, request: &MicroStartRequest) -> (r: Result<
        MicroStartPlan,
        SandboxError,
    >)
        requires
            old(self).wf(),
        ensures
            final(self).wf(),
            final(self).spec_config() == old(self).spec_config(),
            final(self).spec_instances() == old(self).spec_instances(),
            ({
                let cfg = old(self).spec_config();
                let wants_init = request.init_script is Some && trimmed(
                    (request.init_script->Some_0)@,
                ).len() > 0;
                if !has_image(cfg.spec_images(), request.image@) {
                    r matches Err(e) && (e matches SandboxError::MicroImageNotConfigured(n) && n@
                        == request.image@) && *final(self) == *old(self)
                } else if old(self).spec_next_vm_id() == u64::MAX || (wants_init && old(
                    self,
                ).spec_next_script_seq() == u64::MAX) {
                    r matches Err(e) && e is InvalidOperation && *final(self) == *old(self)
                } else {
                    r matches Ok(plan) && {
                        &&& plan.vm_id == old(self).spec_next_vm_id()
                        &&& !contains_id(old(self).spec_instances(), plan.vm_id)
                        &&& plan.vm_id < final(self).spec_next_vm_id()
                        &&& plan.image.spec_name() == request.image@
                        &&& exists|i: int|
                            0 <= i < cfg.spec_images().len() && image_like(
                                plan.image,
                                #[trigger] cfg.spec_images()[i],
                            )
                        &&& plan.workdir@ == workdir_spec(cfg.spec_root(), plan.vm_id)
                        &&& if wants_init {
                            plan.init matches Some(job) && script_job_matches(
                                job,
                                plan.image,
                                cfg,
                                plan.workdir@,
                                (request.init_script->Some_0)@,
                                cfg.spec_default_timeout_ms(),
                                old(self).spec_next_script_seq(),
                            )
                        } else {
                            plan.init is None
                        }
                    }
                }
            }),
    {
        let image = match self.config.image(request.image.as_str()) {
            Some(img) => img.duplicate(),
            None => {
                return Err(SandboxError::MicroImageNotConfigured(request.image.clone()));
            },
        };
        let wants_init: bool = match &request.init_script {
            Some(script) => trim_text(script.as_str()).as_str().unicode_len() > 0,
            None => false,
        };
        if self.next_vm_id == u64::MAX || (wants_init && self.next_script_seq == u64::MAX) {
            return Err(SandboxError::InvalidOperation(String::from_str(
                "instance identifiers exhausted",
            )));
        }
        let vm_id = self.next_vm_id;
        self.next_vm_id = self.next_vm_id + 1;
        let mut workdir = String::from_str(self.config.root());
        workdir.append("/vm-");
        workdir.append(render_u64(vm_id).as_str());
        let init = if wants_init {
            let script: &String = match &request.init_script {
                Some(s) => s,
                None => unreached(),
            };
            let timeout = self.config.default_timeout_ms;
            let code = script.clone();
            Some(self.build_script_job(&image, workdir.as_str(), code.as_str(), timeout))
        } else {
            None
        };
        Ok(MicroStartPlan { vm_id, image, workdir, init })
    }

    /// Registers a started instance. The plan must come from
    /// [`SandboxMicro::begin_start`] on this runner, unregistered so far.
    pub fn commit_start(&mut self, plan: MicroStartPlan) -> (r: MicroInstance)
        requires
            old(self).wf(),
            !contains_id(old(self).spec_instances(), plan.vm_id),
            plan.vm_id < old(self).spec_next_vm_id(),
        ensures
            final(self).wf(),
            final(self).spec_config() == old(self).spec_config(),
            final(self).spec_next_vm_id() == old(self).spec_next_vm_id(),
            final(self).spec_next_script_seq() == old(self).spec_next_script_seq(),
            final(self).spec_instances().len() == old(self).spec_instances().len() + 1,
            final(self).spec_instances().last().id == plan.vm_id,
            final(self).spec_instances().last().image@ == plan.image.spec_name(),
            final(self).spec_instances().last().workdir@ == plan.workdir@,
            final(self).spec_instances().drop_last() == old(self).spec_instances(),
            r.spec_id() == plan.vm_id,
            r.spec_image() == plan.image.spec_name(),
            r.spec_workdir() == plan.workdir@,
    {
        let record = MicroVm {
            id: plan.vm_id,
            image: String::from_str(plan.image.name()),
            workdir: plan.workdir.clone(),
        };
        let instance = MicroInstance {
            id: plan.vm_id,
            image: String::from_str(plan.image.name()),
            workdir: plan.workdir,
        };
        self.instances.push(record);
        proof {
            assert(self.spec_instances().drop_last() =~= old(self).spec_instances());
        }
        instance
    }

    /// Runs code on a live instance: validates the instance, its image and
    /// the deadline, and describes the script run. The script file is
    /// deleted by the runtime on success and timeout alike.
    pub fn plan_execute(&mut self, request: &MicroExecuteRequest) -> (r: Result<
        MicroScriptJob,
        SandboxError,
    >)
        requires
            old(self).wf(),
        ensures
            final(self).wf(),
            final(self).spec_config() == old(self).spec_config(),
            final(self).spec_instances() == old(self).spec_instances(),
            ({
                let cfg = old(self).spec_config();
                let timeout = if request.timeout_ms is Some {
                    request.timeout_ms->Some_0
                } else {
                    cfg.spec_default_timeout_ms()
                };
                if !contains_id(old(self).spec_instances(), request.vm_id) {
                    r == Err::<MicroScriptJob, SandboxError>(
                        SandboxError::MicroVmNotFound(request.vm_id),
                    ) && *final(self) == *old(self)
                } else {
                    exists|i: int|
                        {
                            &&& 0 <= i < old(self).spec_instances().len()
                            &&& (#[trigger] old(self).spec_instances()[i]).id == request.vm_id
                            &&& {
                                let vm = old(self).spec_instances()[i];
                                if !has_image(cfg.spec_images(), vm.image@) {
                                    (r matches Err(e) && e matches
                                        SandboxError::MicroImageNotConfigured(n) && n@ == vm.image@)
                                        && *final(self) == *old(self)
                                } else if timeout == 0 || timeout > cfg.spec_max_timeout_ms() {
                                    (r matches Err(e) && e is InvalidOperation) && *final(self)
                                        == *old(self)
                                } else if old(self).spec_next_script_seq() == u64::MAX {
                                    (r matches Err(e) && e is InvalidOperation) && *final(self)
                                        == *old(self)
                                } else {
                                    r matches Ok(job) && exists|k: int|
                                        0 <= k < cfg.spec_images().len() && (
                                        #[trigger] cfg.spec_images()[k]).spec_name() == vm.image@
                                            && script_job_matches(
                                            job,
                                            cfg.spec_images()[k],
                                            cfg,
                                            vm.workdir@,
                                            request.code@,
                                            timeout,
                                            old(self).spec_next_script_seq(),
                                        )
                                }
                            }
                        }
                }
            }),
    {
        let idx: usize = match self.find_instance(request.vm_id) {
            Some(i) => i,
            None => {
                return Err(SandboxError::MicroVmNotFound(request.vm_id));
            },
        };
        let vm_image = self.instances[idx].image.clone();
        let vm_workdir = self.instances[idx].workdir.clone();
        let image = match self.config.image(vm_image.as_str()) {
            Some(img) => img.duplicate(),
            None => {
                return Err(SandboxError::MicroImageNotConfigured(vm_image));
            },
        };
        let timeout_ms: u64 = match request.timeout_ms {
            Some(t) => t,
            None => self.config.default_timeout_ms,
        };
        if timeout_ms == 0 {
            return Err(SandboxError::InvalidOperation(String::from_str(
                "micro execution timeout must be greater than zero",
            )));
        }
        if timeout_ms > self.config.max_timeout_ms {
            return Err(SandboxError::InvalidOperation(String::from_str(
                "requested timeout exceeds the configured maximum",
            )));
        }
        if self.next_script_seq == u64::MAX {
            return Err(SandboxError::InvalidOperation(String::from_str(
                "script sequence numbers exhausted",
            )));
        }
        let job = self.build_script_job(
            &image,
            vm_workdir.as_str(),
            request.code.as_str(),
            timeout_ms,
        );
        Ok(job)
    }

    /// Judges a finished script run against the output cap.
    pub fn finish_execute(&self, raw: RawProcessOutput) -> (r: Result<MicroOutput, SandboxError>)
        ensures
            r is Ok ==> (r->Ok_0).stdout@.len() <= self.spec_config().spec_max_output_bytes() && (
            r->Ok_0).stderr@.len() <= self.spec_config().spec_max_output_bytes(),
            raw.stdout@.len() <= self.spec_config().spec_max_output_bytes()
                && raw.stderr@.len() <= self.spec_config().spec_max_output_bytes()
                && raw.exit_code is Some ==> (r matches Ok(out) && out.exit_code
                == raw.exit_code->Some_0 && out.stdout@ == raw.stdout@ && out.stderr@
                == raw.stderr@ && out.duration_ms == raw.duration_ms),
            raw.stdout@.len() > self.spec_config().spec_max_output_bytes()
                || raw.stderr@.len() > self.spec_config().spec_max_output_bytes() ==> (
            r matches Err(e) && e is OutputTooLarge),
            raw.stdout@.len() <= self.spec_config().spec_max_output_bytes()
                && raw.stderr@.len() <= self.spec_config().spec_max_output_bytes()
                && raw.exit_code is None ==> r == Err::<MicroOutput, SandboxError>(
                SandboxError::TerminatedBySignal,
            ),
    {
        match bound_output(self.config.max_output_bytes, raw) {
            Ok(out) => Ok(MicroOutput {
                exit_code: out.exit_code,
                stdout: out.stdout,
                stderr: out.stderr,
                duration_ms: out.duration_ms,
            }),
            Err(e) => Err(e),
        }
    }

    /// Unregisters an instance and hands back the working directory the
    /// runtime must remove. A second stop of the same id reports
    /// `MicroVmNotFound`: the id is gone from the registry for good.
    pub fn stop(&mut self, vm_id: u64) -> (r: Result<String, SandboxError>)
        requires
            old(self).wf(),
        ensures
            final(self).wf(),
            final(self).spec_config() == old(self).spec_config(),
            !contains_id(old(self).spec_instances(), vm_id) ==> r == Err::<String, SandboxError>(
                SandboxError::MicroVmNotFound(vm_id),
            ) && *final(self) == *old(self),
            contains_id(old(self).spec_instances(), vm_id) ==> (r matches Ok(w) && exists|i: int|
                {
                    &&& 0 <= i < old(self).spec_instances().len()
                    &&& (#[trigger] old(self).spec_instances()[i]).id == vm_id
                    &&& w@ == old(self).spec_instances()[i].workdir@
                    &&& final(self).spec_instances() == old(self).spec_instances().remove(i)
                }),
            contains_id(old(self).spec_instances(), vm_id) ==> !contains_id(
                final(self).spec_instances(),
                vm_id,
            ),
    {
        let idx: usize = match self.find_instance(vm_id) {
            Some(i) => i,
            None => {
                return Err(SandboxError::MicroVmNotFound(vm_id));
            },
        };
        let ghost pre = self.spec_instances();
        let vm = self.instances.remove(idx);
        proof {
            assert forall|k: int|
                0 <= k < self.spec_instances().len() implies (
            #[trigger] self.spec_instances()[k]).id != vm_id by {
                if k < idx as int {
                    assert(self.spec_instances()[k] == pre[k]);
                } else {
                    assert(self.spec_instances()[k] == pre[k + 1]);
                }
            }
        }
        Ok(vm.workdir)
    }
}

} // verus!
