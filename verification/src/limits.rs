use vstd::prelude::*;
use vstd::string::*;

verus! {

/// Optional per-job resource limits. An absent field applies no limit for
/// that dimension.
#[derive(Clone, Copy, Debug, PartialEq, Eq)]
pub struct ResourceLimits {
    pub memory_high: Option<u64>,
    pub memory_max: Option<u64>,
    pub cpu_max: Option<u32>,
    pub cpu_weight: Option<u32>,
    pub io_weight: Option<u32>,
}

impl Default for ResourceLimits {
    fn default() -> (r: ResourceLimits)
        ensures
            r == ResourceLimits::unlimited(),
    {
        ResourceLimits {
            memory_high: None,
            memory_max: None,
            cpu_max: None,
            cpu_weight: None,
            io_weight: None,
        }
    }
}

impl ResourceLimits {
    /// The limits with every field absent.
    pub open spec fn unlimited() -> ResourceLimits {
        ResourceLimits {
            memory_high: None,
            memory_max: None,
            cpu_max: None,
            cpu_weight: None,
            io_weight: None,
        }
    }
}

/// One write of a short ASCII string to a cgroup interface file.
#[derive(Clone, Debug, PartialEq, Eq)]
pub struct FileWrite {
    pub path: String,
    pub data: String,
}

impl View for FileWrite {
    type V = (Seq<char>, Seq<char>);

    open spec fn view(&self) -> (Seq<char>, Seq<char>) {
        (self.path@, self.data@)
    }
}

/// Why a cgroup operation could not be planned.
#[derive(Clone, Copy, Debug, PartialEq, Eq, Structural)]
pub enum CgroupError {
    /// The root of the cgroup hierarchy does not exist.
    NotFound,
    /// The process has no pid any more.
    PermissionDenied,
}

/// What has to be done on disk for a root scope to exist.
#[derive(Clone, Copy, Debug, PartialEq, Eq, Structural)]
pub enum CreateStep {
    /// Create the directory.
    Create,
    /// The directory is there: leave it.
    Keep,
}

/// The views of a list of writes, in order.
pub open spec fn writes_view(writes: Seq<FileWrite>) -> Seq<(Seq<char>, Seq<char>)> {
    Seq::new(writes.len(), |i: int| writes[i]@)
}

/// The character of a decimal digit.
pub open spec fn digit_char(d: nat) -> char
    recommends
        d < 10,
{
    if d == 0 {
        '0'
    } else if d == 1 {
        '1'
    } else if d == 2 {
        '2'
    } else if d == 3 {
        '3'
    } else if d == 4 {
        '4'
    } else if d == 5 {
        '5'
    } else if d == 6 {
        '6'
    } else if d == 7 {
        '7'
    } else if d == 8 {
        '8'
    } else {
        '9'
    }
}

/// Decimal notation of `n`, most significant digit first, without leading
/// zeros.
pub open spec fn decimal(n: nat) -> Seq<char>
    decreases n,
{
    if n < 10 {
        seq![digit_char(n)]
    } else {
        decimal(n / 10).push(digit_char(n % 10))
    }
}

/// `<dir>/<name>`.
pub open spec fn join(dir: Seq<char>, name: Seq<char>) -> Seq<char> {
    dir + seq!['/'] + name
}

/// The write of `value` to the interface file `file` of the cgroup at `dir`,
/// if the value is present.
pub open spec fn optional_write(dir: Seq<char>, file: Seq<char>, value: Option<nat>) -> Seq<
    (Seq<char>, Seq<char>),
> {
    match value {
        Some(v) => seq![(join(dir, file), decimal(v))],
        None => Seq::empty(),
    }
}

pub open spec fn widen64(v: Option<u64>) -> Option<nat> {
    match v {
        Some(x) => Some(x as nat),
        None => None,
    }
}

pub open spec fn widen32(v: Option<u32>) -> Option<nat> {
    match v {
        Some(x) => Some(x as nat),
        None => None,
    }
}

/// What the kernel reads from `cpu.max`: the quota and the period, both in
/// microseconds, with a space between them. The period is always 100000.
pub open spec fn cpu_max_text(quota: nat) -> Seq<char> {
    decimal(quota) + " 100000"@
}

/// The write of the cpu quota to `cpu.max` of the cgroup at `dir`, if the
/// quota is present.
pub open spec fn quota_write(dir: Seq<char>, quota: Option<u32>) -> Seq<(Seq<char>, Seq<char>)> {
    match quota {
        Some(q) => seq![(join(dir, "cpu.max"@), cpu_max_text(q as nat))],
        None => Seq::empty(),
    }
}

/// The writes that apply `limits` to the cgroup at `dir`: one per present
/// field, in the order memory.high, memory.max, cpu.max, cpu.weight,
/// io.weight. Each value is written in decimal; the cpu quota is followed
/// by its period.
pub open spec fn limit_writes(dir: Seq<char>, limits: ResourceLimits) -> Seq<
    (Seq<char>, Seq<char>),
> {
    optional_write(dir, "memory.high"@, widen64(limits.memory_high)) + optional_write(
        dir,
        "memory.max"@,
        widen64(limits.memory_max),
    ) + quota_write(dir, limits.cpu_max) + optional_write(
        dir,
        "cpu.weight"@,
        widen32(limits.cpu_weight),
    ) + optional_write(dir, "io.weight"@, widen32(limits.io_weight))
}

/// The writes that enable the memory, cpu and io controllers for the
/// children of the cgroup at `dir`.
pub open spec fn controller_writes(dir: Seq<char>) -> Seq<(Seq<char>, Seq<char>)> {
    seq![
        (join(dir, "cgroup.subtree_control"@), "+memory"@),
        (join(dir, "cgroup.subtree_control"@), "+cpu"@),
        (join(dir, "cgroup.subtree_control"@), "+io"@),
    ]
}

fn digit_str(d: u64) -> (r: &'static str)
    requires
        d < 10,
    ensures
        r@ == seq![digit_char(d as nat)],
{
    proof {
        reveal_strlit("0");
        reveal_strlit("1");
        reveal_strlit("2");
        reveal_strlit("3");
        reveal_strlit("4");
        reveal_strlit("5");
        reveal_strlit("6");
        reveal_strlit("7");
        reveal_strlit("8");
        reveal_strlit("9");
    }
    let r: &'static str = if d == 0 {
        "0"
    } else if d == 1 {
        "1"
    } else if d == 2 {
        "2"
    } else if d == 3 {
        "3"
    } else if d == 4 {
        "4"
    } else if d == 5 {
        "5"
    } else if d == 6 {
        "6"
    } else if d == 7 {
        "7"
    } else if d == 8 {
        "8"
    } else {
        "9"
    };
    assert(r@ =~= seq![digit_char(d as nat)]);
    r
}

/// Decimal notation of `n`, as the kernel reads it from an interface file.
pub fn decimal_string(n: u64) -> (r: String)
    ensures
        r@ == decimal(n as nat),
    decreases n,
{
    if n < 10 {
        String::from_str(digit_str(n))
    } else {
        let head: String = decimal_string(n / 10);
        let r: String = head.concat(digit_str(n % 10));
        assert(r@ =~= decimal(n as nat));
        r
    }
}

/// A cgroup v2 directory.
#[derive(Debug, PartialEq, Eq)]
pub struct Cgroup {
    root: String,
}

impl Clone for Cgroup {
    fn clone(&self) -> (r: Cgroup)
        ensures
            r@ == self@,
    {
        Cgroup { root: self.root.clone() }
    }
}

impl View for Cgroup {
    type V = Seq<char>;

    /// The directory's path.
    closed spec fn view(&self) -> Seq<char> {
        self.root@
    }
}

impl Cgroup {
    /// The root of the cgroup v2 hierarchy.
    pub open spec fn default_root() -> Seq<char> {
        "/sys/fs/cgroup"@
    }

    /// The cgroup `<root>/<name>` directly under the hierarchy's root.
    pub fn new(name: &str) -> (r: Cgroup)
        ensures
            r@ == join(Cgroup::default_root(), name@),
    {
        let mut root: String = String::from_str("/sys/fs/cgroup");
        root.append("/");
        root.append(name);
        proof {
            reveal_strlit("/");
            assert(root@ =~= join(Cgroup::default_root(), name@));
        }
        Cgroup { root }
    }

    /// What creating a root scope asks for, given what is on disk: without
    /// the hierarchy's root it fails; a scope that exists is kept, so that
    /// creating it twice is harmless.
    pub fn creation(hierarchy_exists: bool, scope_exists: bool) -> (r: Result<
        CreateStep,
        CgroupError,
    >)
        ensures
            r == if !hierarchy_exists {
                Err::<CreateStep, CgroupError>(CgroupError::NotFound)
            } else if scope_exists {
                Ok::<CreateStep, CgroupError>(CreateStep::Keep)
            } else {
                Ok::<CreateStep, CgroupError>(CreateStep::Create)
            },
    {
        if !hierarchy_exists {
            Err(CgroupError::NotFound)
        } else if scope_exists {
            Ok(CreateStep::Keep)
        } else {
            Ok(CreateStep::Create)
        }
    }

    /// The root of the cgroup v2 hierarchy.
    pub fn hierarchy_root() -> (r: String)
        ensures
            r@ == Cgroup::default_root(),
    {
        String::from_str("/sys/fs/cgroup")
    }

    /// The cgroup `<cgroup>/<name>`.
    pub fn new_relative_to(cgroup: &Cgroup, name: &str) -> (r: Cgroup)
        ensures
            r@ == join(cgroup@, name@),
    {
        Cgroup { root: cgroup.file(name) }
    }

    /// The directory's path.
    pub fn path(&self) -> (r: String)
        ensures
            r@ == self@,
    {
        self.root.clone()
    }

    fn file(&self, name: &str) -> (r: String)
        ensures
            r@ == join(self@, name@),
    {
        let mut p: String = self.root.clone();
        p.append("/");
        p.append(name);
        proof {
            reveal_strlit("/");
            assert(p@ =~= join(self@, name@));
        }
        p
    }

    /// The writes that enable the memory, cpu and io controllers on this
    /// node, to be made in order before children are created.
    pub fn enable_controllers(&self) -> (r: Vec<FileWrite>)
        ensures
            writes_view(r@) == controller_writes(self@),
    {
        let mut r: Vec<FileWrite> = Vec::new();
        r.push(self.change_controller("+memory"));
        r.push(self.change_controller("+cpu"));
        r.push(self.change_controller("+io"));
        assert(writes_view(r@) =~= controller_writes(self@));
        r
    }

    /// The write that moves the process `pid` into this cgroup.
    pub fn attach(&self, pid: u32) -> (r: FileWrite)
        ensures
            r@ == (join(self@, "cgroup.procs"@), decimal(pid as nat)),
    {
        FileWrite { path: self.file("cgroup.procs"), data: decimal_string(pid as u64) }
    }

    /// The write that moves a child process into this cgroup, given the
    /// pid that the child reports. A child without a pid has been waited
    /// for already and cannot be attached.
    pub fn add_task(&self, pid: Option<u32>) -> (r: Result<FileWrite, CgroupError>)
        ensures
            match pid {
                Some(p) => r is Ok && r->Ok_0@ == (
                    join(self@, "cgroup.procs"@),
                    decimal(p as nat),
                ),
                None => r == Err::<FileWrite, CgroupError>(CgroupError::PermissionDenied),
            },
    {
        match pid {
            Some(p) => Ok(self.attach(p)),
            None => Err(CgroupError::PermissionDenied),
        }
    }

    /// The writes that apply `limits` to this cgroup, in order. A present
    /// field gives one write of its value in decimal; an absent field gives
    /// none, so that the parent's setting is inherited. The cpu quota is
    /// written as the kernel reads it, followed by a space and its period
    /// of 100000 microseconds.
    pub fn apply_limits(&self, limits: ResourceLimits) -> (r: Vec<FileWrite>)
        ensures
            writes_view(r@) == limit_writes(self@, limits),
    {
        let mut r: Vec<FileWrite> = Vec::new();
        if let Some(memory_high) = limits.memory_high {
            r.push(self.apply_limit("memory.high", memory_high));
        }
        if let Some(memory_max) = limits.memory_max {
            r.push(self.apply_limit("memory.max", memory_max));
        }
        if let Some(cpu_max) = limits.cpu_max {
            r.push(self.apply_quota(cpu_max));
        }
        if let Some(cpu_weight) = limits.cpu_weight {
            r.push(self.apply_limit("cpu.weight", cpu_weight as u64));
        }
        if let Some(io_weight) = limits.io_weight {
            r.push(self.apply_limit("io.weight", io_weight as u64));
        }
        assert(writes_view(r@) =~= limit_writes(self@, limits));
        r
    }

    fn apply_quota(&self, quota: u32) -> (r: FileWrite)
        ensures
            r@ == (join(self@, "cpu.max"@), cpu_max_text(quota as nat)),
    {
        FileWrite {
            path: self.file("cpu.max"),
            data: decimal_string(quota as u64).concat(" 100000"),
        }
    }

    fn apply_limit(&self, limit: &str, value: u64) -> (r: FileWrite)
        ensures
            r@ == (join(self@, limit@), decimal(value as nat)),
    {
        FileWrite { path: self.file(limit), data: decimal_string(value) }
    }

    fn change_controller(&self, controller: &str) -> (r: FileWrite)
        ensures
            r@ == (join(self@, "cgroup.subtree_control"@), controller@),
    {
        FileWrite {
            path: self.file("cgroup.subtree_control"),
            data: String::from_str(controller),
        }
    }
}

} // verus!
