//! System-call interface: the supported call table, per-platform calling
//! conventions, security policies, and the generation of call-wrapper
//! text for code emission.

use vstd::prelude::*;
use vstd::string::StringExecFns;
use crate::text::{pattern_matches, regex_match};

verus! {

#[derive(Debug, Clone, Copy, PartialEq, Eq, Structural)]
pub enum SystemCallType {
    FileSystem,
    Memory,
    Process,
    Network,
    Time,
    Input,
    Output,
    Threading,
    Signal,
}

#[derive(Debug, Clone)]
pub struct SystemCallParameter {
    pub name: String,
    pub param_type: String,
    pub is_optional: bool,
    pub description: String,
}

#[derive(Debug, Clone)]
pub struct SystemCall {
    pub name: String,
    pub call_type: SystemCallType,
    pub parameters: Vec<SystemCallParameter>,
    pub return_type: String,
    pub description: String,
    pub platform_specific: bool,
}

#[derive(Debug, Clone)]
pub enum CallingConvention {
    SystemV,
    MicrosoftX64,
    Arm64,
    Custom(String),
}

#[derive(Debug, Clone)]
pub struct ABIDetails {
    pub register_usage: Vec<String>,
    pub stack_alignment: u32,
    pub return_convention: String,
}

#[derive(Debug, Clone)]
pub struct PlatformMapping {
    pub platform: String,
    pub syscall_number: Option<u32>,
    pub calling_convention: CallingConvention,
    pub abi_details: ABIDetails,
}

#[derive(Debug, Clone, Copy, PartialEq, Eq, Structural)]
pub enum SecurityPolicyType {
    Sandbox,
    Restricted,
    Standard,
    Privileged,
}

#[derive(Debug, Clone)]
pub struct SecurityPolicy {
    pub policy_type: SecurityPolicyType,
    pub allowed_calls: Vec<String>,
    pub restrictions: Vec<String>,
    pub description: String,
}

/// The system-call number on 64-bit Linux, for the calls the table holds.
pub open spec fn spec_linux_syscall_number(name: Seq<char>) -> u32 {
    if name == "read"@ {
        0
    } else if name == "write"@ {
        1
    } else if name == "open"@ {
        2
    } else if name == "close"@ {
        3
    } else if name == "mmap"@ {
        9
    } else if name == "munmap"@ {
        11
    } else if name == "exit"@ {
        60
    } else {
        0
    }
}

/// A name is in the list, by view.
pub open spec fn name_listed(names: Seq<String>, x: Seq<char>) -> bool {
    exists|k: int| 0 <= k < names.len() && (#[trigger] names[k])@ == x
}

/// The decimal text of a supported trap number.
pub open spec fn trap_digits(n: u32) -> Seq<char> {
    if n == 0 {
        "0"@
    } else if n == 1 {
        "1"@
    } else if n == 2 {
        "2"@
    } else if n == 3 {
        "3"@
    } else if n == 9 {
        "9"@
    } else if n == 11 {
        "11"@
    } else if n == 60 {
        "60"@
    } else {
        "?"@
    }
}

/// The System V argument register for parameter position `k`.
pub open spec fn linux_arg_register(k: int) -> Seq<char> {
    if k == 0 {
        "rdi"@
    } else if k == 1 {
        "rsi"@
    } else if k == 2 {
        "rdx"@
    } else if k == 3 {
        "r10"@
    } else if k == 4 {
        "r8"@
    } else {
        "r9"@
    }
}

/// The per-parameter lines of the Linux wrapper text, for the first `upto`
/// parameters.
pub open spec fn linux_param_text(params: Seq<SystemCallParameter>, upto: int) -> Seq<char>
    decreases upto,
{
    if upto <= 0 {
        Seq::<char>::empty()
    } else {
        linux_param_text(params, upto - 1) + "; "@ + params[upto - 1].name@ + " in "@
            + linux_arg_register(upto - 1)
    }
}

/// The whole Linux wrapper text for a call.
pub open spec fn linux_wrapper_text(sc: SystemCall) -> Seq<char> {
    let lim = if sc.parameters@.len() < 6 { sc.parameters@.len() as int } else { 6int };
    "call "@ + sc.name@ + " via trap number "@ + trap_digits(spec_linux_syscall_number(sc.name@))
        + " in rax"@ + linux_param_text(sc.parameters@, lim) + "; result in rax"@
}

/// The whole Windows wrapper text for a call.
pub open spec fn windows_wrapper_text(sc: SystemCall) -> Seq<char> {
    "call "@ + sc.name@ + (if sc.name@ == "read"@ {
        " via ReadFile with byte count out-parameter"@
    } else if sc.name@ == "write"@ {
        " via WriteFile with byte count out-parameter"@
    } else if sc.name@ == "exit"@ {
        " via ExitProcess with the status argument"@
    } else {
        " is not mapped on this platform"@
    })
}

/// Number of platform-independent calls among the first `upto`.
pub open spec fn count_portable(calls: Seq<SystemCall>, upto: int) -> int
    decreases upto,
{
    if upto <= 0 {
        0
    } else {
        count_portable(calls, upto - 1) + if !calls[upto - 1].platform_specific {
            1int
        } else {
            0int
        }
    }
}

pub proof fn lemma_count_portable_mono(calls: Seq<SystemCall>, a: int, b: int)
    requires
        0 <= a <= b,
    ensures
        0 <= count_portable(calls, a) <= count_portable(calls, b)
            <= count_portable(calls, a) + (b - a),
    decreases b,
{
    if a < b {
        lemma_count_portable_mono(calls, a, b - 1);
    } else if a > 0 {
        lemma_count_portable_mono(calls, a - 1, a - 1);
    }
}

/// The first policy of the given kind, if any.
pub open spec fn find_policy(ps: Seq<SecurityPolicy>, t: SecurityPolicyType, from: int) -> Option<int>
    decreases ps.len() - from,
{
    if from < 0 || from >= ps.len() {
        None
    } else if ps[from].policy_type == t {
        Some(from)
    } else {
        find_policy(ps, t, from + 1)
    }
}

/// The first call of the table with the given name.
pub open spec fn find_call(calls: Seq<SystemCall>, name: Seq<char>, from: int) -> Option<int>
    decreases calls.len() - from,
{
    if from < 0 || from >= calls.len() {
        None
    } else if calls[from].name@ == name {
        Some(from)
    } else {
        find_call(calls, name, from + 1)
    }
}

/// System-call interface: supported calls, platform mappings, policies.
pub struct SystemCallInterface {
    pub supported_calls: Vec<SystemCall>,
    pub platform_mappings: Vec<PlatformMapping>,
    pub security_policies: Vec<SecurityPolicy>,
}

impl SystemCallInterface {
    pub fn new() -> (r: SystemCallInterface)
        ensures
            r.supported_calls@.len() == 4,
            r.supported_calls@[0].name@ == "read"@,
            r.supported_calls@[1].name@ == "write"@,
            r.supported_calls@[2].name@ == "mmap"@,
            r.supported_calls@[3].name@ == "exit"@,
            r.platform_mappings@.len() == 2,
            r.security_policies@.len() == 2,
            r.security_policies@[0].policy_type == SecurityPolicyType::Sandbox,
            name_listed(r.security_policies@[0].allowed_calls@, "read"@),
            name_listed(r.security_policies@[0].allowed_calls@, "write"@),
            name_listed(r.security_policies@[0].allowed_calls@, "exit"@),
            r.security_policies@[1].policy_type == SecurityPolicyType::Standard,
            r.platform_mappings@[0].platform@ == "linux-x86_64"@,
            r.platform_mappings@[1].platform@ == "windows-x86_64"@,
            r.security_policies@[0].allowed_calls@.len() == 3,
            r.security_policies@[1].allowed_calls@.len() == 7,
            name_listed(r.security_policies@[1].allowed_calls@, "mmap"@),
    {
        let r = SystemCallInterface {
            supported_calls: Self::initialize_system_calls(),
            platform_mappings: Self::initialize_platform_mappings(),
            security_policies: Self::initialize_security_policies(),
        };
        proof {
            assert(r.security_policies@[0].allowed_calls@[0]@ == "read"@);
            assert(r.security_policies@[0].allowed_calls@[1]@ == "write"@);
            assert(r.security_policies@[0].allowed_calls@[2]@ == "exit"@);
            assert(name_listed(r.security_policies@[0].allowed_calls@, "read"@));
            assert(name_listed(r.security_policies@[0].allowed_calls@, "write"@));
            assert(name_listed(r.security_policies@[0].allowed_calls@, "exit"@));
            assert(r.security_policies@[1].allowed_calls@[4]@ == "mmap"@);
            assert(name_listed(r.security_policies@[1].allowed_calls@, "mmap"@));
        }
        r
    }

    /// The supported call table: read, write, mmap, exit.
    pub fn initialize_system_calls() -> (r: Vec<SystemCall>)
        ensures
            r@.len() == 4,
            r@[0].name@ == "read"@,
            r@[0].call_type == SystemCallType::Input,
            r@[0].parameters@.len() == 3,
            !r@[0].platform_specific,
            r@[1].name@ == "write"@,
            r@[1].call_type == SystemCallType::Output,
            r@[1].parameters@.len() == 3,
            !r@[1].platform_specific,
            r@[2].name@ == "mmap"@,
            r@[2].call_type == SystemCallType::Memory,
            r@[2].parameters@.len() == 4,
            r@[2].platform_specific,
            r@[3].name@ == "exit"@,
            r@[3].call_type == SystemCallType::Process,
            r@[3].parameters@.len() == 1,
            !r@[3].platform_specific,
    {
        let mut calls: Vec<SystemCall> = Vec::new();
        let mut read_params: Vec<SystemCallParameter> = Vec::new();
        read_params.push(SystemCallParameter {
            name: String::from_str("fd"),
            param_type: String::from_str("i32"),
            is_optional: false,
            description: String::from_str("File descriptor"),
        });
        read_params.push(SystemCallParameter {
            name: String::from_str("buf"),
            param_type: String::from_str("byte buffer"),
            is_optional: false,
            description: String::from_str("Buffer to read into"),
        });
        read_params.push(SystemCallParameter {
            name: String::from_str("count"),
            param_type: String::from_str("usize"),
            is_optional: false,
            description: String::from_str("Number of bytes to read"),
        });
        calls.push(SystemCall {
            name: String::from_str("read"),
            call_type: SystemCallType::Input,
            parameters: read_params,
            return_type: String::from_str("isize"),
            description: String::from_str("Read from file descriptor"),
            platform_specific: false,
        });
        let mut write_params: Vec<SystemCallParameter> = Vec::new();
        write_params.push(SystemCallParameter {
            name: String::from_str("fd"),
            param_type: String::from_str("i32"),
            is_optional: false,
            description: String::from_str("File descriptor"),
        });
        write_params.push(SystemCallParameter {
            name: String::from_str("buf"),
            param_type: String::from_str("byte buffer"),
            is_optional: false,
            description: String::from_str("Buffer to write from"),
        });
        write_params.push(SystemCallParameter {
            name: String::from_str("count"),
            param_type: String::from_str("usize"),
            is_optional: false,
            description: String::from_str("Number of bytes to write"),
        });
        calls.push(SystemCall {
            name: String::from_str("write"),
            call_type: SystemCallType::Output,
            parameters: write_params,
            return_type: String::from_str("isize"),
            description: String::from_str("Write to file descriptor"),
            platform_specific: false,
        });
        let mut mmap_params: Vec<SystemCallParameter> = Vec::new();
        mmap_params.push(SystemCallParameter {
            name: String::from_str("addr"),
            param_type: String::from_str("address"),
            is_optional: true,
            description: String::from_str("Preferred address"),
        });
        mmap_params.push(SystemCallParameter {
            name: String::from_str("length"),
            param_type: String::from_str("usize"),
            is_optional: false,
            description: String::from_str("Size of mapping"),
        });
        mmap_params.push(SystemCallParameter {
            name: String::from_str("prot"),
            param_type: String::from_str("i32"),
            is_optional: false,
            description: String::from_str("Protection flags"),
        });
        mmap_params.push(SystemCallParameter {
            name: String::from_str("flags"),
            param_type: String::from_str("i32"),
            is_optional: false,
            description: String::from_str("Mapping flags"),
        });
        calls.push(SystemCall {
            name: String::from_str("mmap"),
            call_type: SystemCallType::Memory,
            parameters: mmap_params,
            return_type: String::from_str("address"),
            description: String::from_str("Map memory"),
            platform_specific: true,
        });
        let mut exit_params: Vec<SystemCallParameter> = Vec::new();
        exit_params.push(SystemCallParameter {
            name: String::from_str("status"),
            param_type: String::from_str("i32"),
            is_optional: false,
            description: String::from_str("Exit status"),
        });
        calls.push(SystemCall {
            name: String::from_str("exit"),
            call_type: SystemCallType::Process,
            parameters: exit_params,
            return_type: String::from_str("never"),
            description: String::from_str("Exit process"),
            platform_specific: false,
        });
        calls
    }

    /// The platform table: 64-bit Linux and 64-bit Windows.
    pub fn initialize_platform_mappings() -> (r: Vec<PlatformMapping>)
        ensures
            r@.len() == 2,
            r@[0].platform@ == "linux-x86_64"@,
            r@[0].abi_details.register_usage@.len() == 7,
            r@[0].abi_details.stack_alignment == 16,
            r@[1].platform@ == "windows-x86_64"@,
            r@[1].abi_details.register_usage@.len() == 4,
            r@[1].abi_details.stack_alignment == 16,
    {
        let mut mappings: Vec<PlatformMapping> = Vec::new();
        let mut linux_regs: Vec<String> = Vec::new();
        linux_regs.push(String::from_str("rax"));
        linux_regs.push(String::from_str("rdi"));
        linux_regs.push(String::from_str("rsi"));
        linux_regs.push(String::from_str("rdx"));
        linux_regs.push(String::from_str("r10"));
        linux_regs.push(String::from_str("r8"));
        linux_regs.push(String::from_str("r9"));
        mappings.push(PlatformMapping {
            platform: String::from_str("linux-x86_64"),
            syscall_number: Some(0),
            calling_convention: CallingConvention::SystemV,
            abi_details: ABIDetails {
                register_usage: linux_regs,
                stack_alignment: 16,
                return_convention: String::from_str("rax"),
            },
        });
        let mut win_regs: Vec<String> = Vec::new();
        win_regs.push(String::from_str("rcx"));
        win_regs.push(String::from_str("rdx"));
        win_regs.push(String::from_str("r8"));
        win_regs.push(String::from_str("r9"));
        mappings.push(PlatformMapping {
            platform: String::from_str("windows-x86_64"),
            syscall_number: None,
            calling_convention: CallingConvention::MicrosoftX64,
            abi_details: ABIDetails {
                register_usage: win_regs,
                stack_alignment: 16,
                return_convention: String::from_str("rax"),
            },
        });
        mappings
    }

    /// The security policy table: sandbox and standard.
    pub fn initialize_security_policies() -> (r: Vec<SecurityPolicy>)
        ensures
            r@.len() == 2,
            r@[0].policy_type == SecurityPolicyType::Sandbox,
            r@[0].allowed_calls@.len() == 3,
            r@[0].allowed_calls@[0]@ == "read"@,
            r@[0].allowed_calls@[1]@ == "write"@,
            r@[0].allowed_calls@[2]@ == "exit"@,
            r@[1].policy_type == SecurityPolicyType::Standard,
            r@[1].allowed_calls@.len() == 7,
            r@[1].allowed_calls@[0]@ == "read"@,
            r@[1].allowed_calls@[1]@ == "write"@,
            r@[1].allowed_calls@[2]@ == "open"@,
            r@[1].allowed_calls@[3]@ == "close"@,
            r@[1].allowed_calls@[4]@ == "mmap"@,
            r@[1].allowed_calls@[5]@ == "munmap"@,
            r@[1].allowed_calls@[6]@ == "exit"@,
    {
        let mut policies: Vec<SecurityPolicy> = Vec::new();
        let mut sandbox_calls: Vec<String> = Vec::new();
        sandbox_calls.push(String::from_str("read"));
        sandbox_calls.push(String::from_str("write"));
        sandbox_calls.push(String::from_str("exit"));
        policies.push(SecurityPolicy {
            policy_type: SecurityPolicyType::Sandbox,
            allowed_calls: sandbox_calls,
            restrictions: vec![
                String::from_str("No network access"),
                String::from_str("No file system writes outside the sandbox"),
                String::from_str("No process creation"),
            ],
            description: String::from_str("Sandboxed execution environment"),
        });
        let mut standard_calls: Vec<String> = Vec::new();
        standard_calls.push(String::from_str("read"));
        standard_calls.push(String::from_str("write"));
        standard_calls.push(String::from_str("open"));
        standard_calls.push(String::from_str("close"));
        standard_calls.push(String::from_str("mmap"));
        standard_calls.push(String::from_str("munmap"));
        standard_calls.push(String::from_str("exit"));
        policies.push(SecurityPolicy {
            policy_type: SecurityPolicyType::Standard,
            allowed_calls: standard_calls,
            restrictions: vec![String::from_str("No privileged operations")],
            description: String::from_str("Standard user-level permissions"),
        });
        policies
    }

    /// Whether the first policy of the given kind allows the named call;
    /// false when no policy of that kind exists.
    pub fn is_syscall_allowed(&self, syscall_name: &str, policy_type: &SecurityPolicyType) -> (r: bool)
        ensures
            r == match find_policy(self.security_policies@, *policy_type, 0) {
                Some(p) => name_listed(self.security_policies@[p].allowed_calls@, syscall_name@),
                None => false,
            },
    {
        let mut p: usize = 0;
        while p < self.security_policies.len()
            invariant
                p <= self.security_policies@.len(),
                find_policy(self.security_policies@, *policy_type, 0)
                    == find_policy(self.security_policies@, *policy_type, p as int),
            decreases self.security_policies@.len() - p,
        {
            if self.security_policies[p].policy_type == *policy_type {
                let allowed = &self.security_policies[p].allowed_calls;
                let mut k: usize = 0;
                while k < allowed.len()
                    invariant
                        k <= allowed@.len(),
                        p < self.security_policies@.len(),
                        allowed@ == self.security_policies@[p as int].allowed_calls@,
                        self.security_policies@[p as int].policy_type == *policy_type,
                        find_policy(self.security_policies@, *policy_type, 0) == Some(p as int),
                        forall|k2: int| 0 <= k2 < k ==> (#[trigger] allowed@[k2])@ != syscall_name@,
                    decreases allowed@.len() - k,
                {
                    if allowed[k] == String::from_str(syscall_name) {
                        proof {
                            assert(allowed@[k as int]@ == syscall_name@);
                            assert(name_listed(allowed@, syscall_name@));
                        }
                        return true;
                    }
                    k += 1;
                }
                return false;
            }
            p += 1;
        }
        false
    }

    /// The first supported call with the given name.
    pub fn get_syscall(&self, name: &str) -> (r: Option<&SystemCall>)
        ensures
            match r {
                Some(sc) => find_call(self.supported_calls@, name@, 0) matches Some(k)
                    && *sc == self.supported_calls@[k],
                None => find_call(self.supported_calls@, name@, 0) is None,
            },
    {
        let mut k: usize = 0;
        while k < self.supported_calls.len()
            invariant
                k <= self.supported_calls@.len(),
                find_call(self.supported_calls@, name@, 0)
                    == find_call(self.supported_calls@, name@, k as int),
            decreases self.supported_calls@.len() - k,
        {
            if self.supported_calls[k].name == String::from_str(name) {
                return Some(&self.supported_calls[k]);
            }
            k += 1;
        }
        None
    }

    /// All supported calls for a known platform, in table order; only the
    /// platform-independent ones, in table order, otherwise.
    pub fn list_available_syscalls(&self, platform: &str) -> (r: Vec<&SystemCall>)
        ensures
            name_listed_platform(self.platform_mappings@, platform@) ==> {
                &&& r@.len() == self.supported_calls@.len()
                &&& forall|k: int| 0 <= k < r@.len()
                    ==> *(#[trigger] r@[k]) == self.supported_calls@[k]
            },
            !name_listed_platform(self.platform_mappings@, platform@) ==> {
                &&& r@.len() == count_portable(self.supported_calls@, self.supported_calls@.len() as int)
                &&& forall|i: int| 0 <= i < self.supported_calls@.len()
                    && !(#[trigger] self.supported_calls@[i]).platform_specific
                    ==> {
                        let j = count_portable(self.supported_calls@, i);
                        0 <= j < r@.len() && *r@[j] == self.supported_calls@[i]
                    }
            },
    {
        let mut known = false;
        let mut p: usize = 0;
        while p < self.platform_mappings.len()
            invariant
                p <= self.platform_mappings@.len(),
                known == exists|j: int| 0 <= j < p
                    && (#[trigger] self.platform_mappings@[j]).platform@ == platform@,
            decreases self.platform_mappings@.len() - p,
        {
            if self.platform_mappings[p].platform == String::from_str(platform) {
                proof {
                    assert(self.platform_mappings@[p as int].platform@ == platform@);
                }
                known = true;
            }
            p += 1;
        }
        let mut out: Vec<&SystemCall> = Vec::new();
        let mut k: usize = 0;
        while k < self.supported_calls.len()
            invariant
                k <= self.supported_calls@.len(),
                known == name_listed_platform(self.platform_mappings@, platform@),
                known ==> out@.len() == k,
                known ==> forall|k2: int| 0 <= k2 < k
                    ==> *(#[trigger] out@[k2]) == self.supported_calls@[k2],
                !known ==> out@.len() == count_portable(self.supported_calls@, k as int),
                !known ==> forall|i: int| 0 <= i < k
                    && !(#[trigger] self.supported_calls@[i]).platform_specific
                    ==> {
                        let j = count_portable(self.supported_calls@, i);
                        0 <= j < out@.len() && *out@[j] == self.supported_calls@[i]
                    },
            decreases self.supported_calls@.len() - k,
        {
            let ghost before = out@;
            if known || !self.supported_calls[k].platform_specific {
                out.push(&self.supported_calls[k]);
            }
            proof {
                if !known {
                    assert forall|i: int| 0 <= i < k + 1
                        && !(#[trigger] self.supported_calls@[i]).platform_specific
                        implies {
                            let j = count_portable(self.supported_calls@, i);
                            0 <= j < out@.len() && *out@[j] == self.supported_calls@[i]
                        } by {
                        let j = count_portable(self.supported_calls@, i);
                        lemma_count_portable_mono(self.supported_calls@, i, k as int);
                        if i < k {
                            assert(count_portable(self.supported_calls@, i + 1) == j + 1);
                            lemma_count_portable_mono(self.supported_calls@, i + 1, k as int);
                            assert(out@[j] == before[j]);
                        } else {
                            assert(out@[j] == out@[before.len() as int]);
                        }
                    }
                }
            }
            k += 1;
        }
        out
    }

    /// Generate the wrapper text for one call on one platform; unsupported
    /// names and platforms are errors.
    pub fn generate_syscall_wrapper(&self, syscall_name: &str, target_platform: &str) -> (r: Result<
        String,
        String,
    >)
        ensures
            find_call(self.supported_calls@, syscall_name@, 0) is None ==> r is Err,
            find_call(self.supported_calls@, syscall_name@, 0) is Some
                && (target_platform@ == "linux-x86_64"@ || target_platform@ == "windows-x86_64"@)
                ==> r is Ok,
    {
        let syscall = match self.get_syscall(syscall_name) {
            Some(sc) => sc,
            None => {
                let mut e = String::from_str("Unsupported system call: ");
                e.append(syscall_name);
                return Err(e);
            },
        };
        proof {
            reveal_strlit("linux-x86_64");
            reveal_strlit("windows-x86_64");
        }
        if Self::str_eq(target_platform, "linux-x86_64") {
            Ok(Self::generate_linux_x86_64_wrapper(syscall))
        } else if Self::str_eq(target_platform, "windows-x86_64") {
            Ok(Self::generate_windows_x86_64_wrapper(syscall))
        } else {
            let mut e = String::from_str("Unsupported platform: ");
            e.append(target_platform);
            Err(e)
        }
    }

    fn str_eq(a: &str, b: &str) -> (r: bool)
        ensures
            r == (a@ == b@),
    {
        String::from_str(a) == String::from_str(b)
    }

    fn u32_digits(n: u32) -> (r: &'static str)
        ensures
            r@ == trap_digits(n),
    {
        match n {
            0 => "0",
            1 => "1",
            2 => "2",
            3 => "3",
            9 => "9",
            11 => "11",
            60 => "60",
            _ => "?",
        }
    }

    /// The Linux wrapper text: the call number and the argument registers
    /// of the System V convention, one line per parameter.
    pub fn generate_linux_x86_64_wrapper(syscall: &SystemCall) -> (r: String)
        ensures
            r@ == linux_wrapper_text(*syscall),
    {
        let number = Self::linux_syscall_number(&syscall.name);
        let mut w = String::from_str("call ");
        w.append(syscall.name.as_str());
        w.append(" via trap number ");
        w.append(Self::u32_digits(number));
        w.append(" in rax");
        let ghost header = w@;
        let regs = ["rdi", "rsi", "rdx", "r10", "r8", "r9"];
        proof {
            assert(regs@[0]@ == linux_arg_register(0));
            assert(regs@[1]@ == linux_arg_register(1));
            assert(regs@[2]@ == linux_arg_register(2));
            assert(regs@[3]@ == linux_arg_register(3));
            assert(regs@[4]@ == linux_arg_register(4));
            assert(regs@[5]@ == linux_arg_register(5));
        }
        let mut k: usize = 0;
        while k < syscall.parameters.len() && k < 6
            invariant
                k <= syscall.parameters@.len(),
                k <= 6,
                regs@.len() == 6,
                forall|k2: int| 0 <= k2 < 6 ==> (#[trigger] regs@[k2])@ == linux_arg_register(k2),
                w@ == header + linux_param_text(syscall.parameters@, k as int),
            decreases syscall.parameters@.len() - k,
        {
            w.append("; ");
            w.append(syscall.parameters[k].name.as_str());
            w.append(" in ");
            w.append(regs[k]);
            k += 1;
        }
        w.append("; result in rax");
        proof {
            let lim = if syscall.parameters@.len() < 6 {
                syscall.parameters@.len() as int
            } else {
                6int
            };
            assert(k as int == lim);
        }
        w
    }

    fn linux_syscall_number(name: &String) -> (r: u32)
        ensures
            r == spec_linux_syscall_number(name@),
    {
        if *name == String::from_str("read") {
            0
        } else if *name == String::from_str("write") {
            1
        } else if *name == String::from_str("open") {
            2
        } else if *name == String::from_str("close") {
            3
        } else if *name == String::from_str("mmap") {
            9
        } else if *name == String::from_str("munmap") {
            11
        } else if *name == String::from_str("exit") {
            60
        } else {
            0
        }
    }

    /// The Windows wrapper text: the host routine each call maps onto.
    pub fn generate_windows_x86_64_wrapper(syscall: &SystemCall) -> (r: String)
        ensures
            r@ == windows_wrapper_text(*syscall),
    {
        let mut w = String::from_str("call ");
        w.append(syscall.name.as_str());
        proof {
            reveal_strlit("read");
            reveal_strlit("write");
            reveal_strlit("exit");
        }
        if Self::str_eq(syscall.name.as_str(), "read") {
            w.append(" via ReadFile with byte count out-parameter");
        } else if Self::str_eq(syscall.name.as_str(), "write") {
            w.append(" via WriteFile with byte count out-parameter");
        } else if Self::str_eq(syscall.name.as_str(), "exit") {
            w.append(" via ExitProcess with the status argument");
        } else {
            w.append(" is not mapped on this platform");
        }
        w
    }
}

pub open spec fn name_listed_platform(mappings: Seq<PlatformMapping>, x: Seq<char>) -> bool {
    exists|k: int| 0 <= k < mappings.len() && (#[trigger] mappings[k]).platform@ == x
}

/// System-call builder: infers calls from free text and renders
/// integration text.
pub struct SystemCallBuilder {
    pub interface: SystemCallInterface,
}

impl SystemCallBuilder {
    pub fn new() -> (r: SystemCallBuilder)
        ensures
            r.interface.supported_calls@.len() == 4,
    {
        SystemCallBuilder { interface: SystemCallInterface::new() }
    }

    /// Infer a system call from a description: reading words map to read,
    /// writing and printing words to write, exiting words to exit, and
    /// allocation words to mmap; anything else maps to nothing.
    pub fn infer_syscall_from_description(&self, description: &str) -> (r: Option<String>)
        ensures
            match r {
                Some(name) => {
                    if regex_match("(?i)(read|input)"@, description@) {
                        name@ == "read"@
                    } else if regex_match("(?i)(write|print|output|display)"@, description@) {
                        name@ == "write"@
                    } else if regex_match("(?i)(exit|quit|terminate)"@, description@) {
                        name@ == "exit"@
                    } else {
                        regex_match("(?i)(allocate|memory)"@, description@) && name@ == "mmap"@
                    }
                },
                None => {
                    &&& !regex_match("(?i)(read|input)"@, description@)
                    &&& !regex_match("(?i)(write|print|output|display)"@, description@)
                    &&& !regex_match("(?i)(exit|quit|terminate)"@, description@)
                    &&& !regex_match("(?i)(allocate|memory)"@, description@)
                },
            },
    {
        if pattern_matches("(?i)(read|input)", description) {
            Some(String::from_str("read"))
        } else if pattern_matches("(?i)(write|print|output|display)", description) {
            Some(String::from_str("write"))
        } else if pattern_matches("(?i)(exit|quit|terminate)", description) {
            Some(String::from_str("exit"))
        } else if pattern_matches("(?i)(allocate|memory)", description) {
            Some(String::from_str("mmap"))
        } else {
            None
        }
    }

    /// Render the wrapper of a call into a labeled integration note.
    pub fn generate_integration_code(&self, syscall_name: &str, target_platform: &str) -> (r: Result<
        String,
        String,
    >)
        ensures
            find_call(self.interface.supported_calls@, syscall_name@, 0) is None ==> r is Err,
            find_call(self.interface.supported_calls@, syscall_name@, 0) is Some
                && (target_platform@ == "linux-x86_64"@ || target_platform@ == "windows-x86_64"@)
                ==> r is Ok,
    {
        let wrapper = match self.interface.generate_syscall_wrapper(syscall_name, target_platform) {
            Ok(w) => w,
            Err(e) => {
                return Err(e);
            },
        };
        let mut code = String::from_str("integration for ");
        code.append(syscall_name);
        code.append(": ");
        code.append(wrapper.as_str());
        Ok(code)
    }
}

} // verus!
