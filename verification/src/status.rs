//! The status of this process, as `/proc/self/status` describes it.
//!
//! Each section of the status takes the `key: value` lines that belong to
//! it; `Status::parse_lines` hands every line to the sections in turn.
use vstd::prelude::*;

use crate::hack::{size_of_chars, size_or_zero};
use crate::text::{
    eq_str, key_value, parse_usize_or, split_key_value, split_whitespace, split_ws, string_of,
    usize_or,
};

verus! {

/// Signal and capability masks, kept as the text the kernel writes.
#[derive(Debug, Clone)]
pub struct SignalCapabilitiesStatus {
    pub sigq: String,
    pub sigpnd: String,
    pub shdpnd: String,
    pub sigblk: String,
    pub sigign: String,
    pub sigcgt: String,
    pub capinh: String,
    pub capprm: String,
    pub capeff: String,
    pub capbnd: String,
    pub capamb: String,
}

/// The characters of each mask of a `SignalCapabilitiesStatus`.
pub struct SignalCapabilitiesView {
    pub sigq: Seq<char>,
    pub sigpnd: Seq<char>,
    pub shdpnd: Seq<char>,
    pub sigblk: Seq<char>,
    pub sigign: Seq<char>,
    pub sigcgt: Seq<char>,
    pub capinh: Seq<char>,
    pub capprm: Seq<char>,
    pub capeff: Seq<char>,
    pub capbnd: Seq<char>,
    pub capamb: Seq<char>,
}

impl View for SignalCapabilitiesStatus {
    type V = SignalCapabilitiesView;

    open spec fn view(&self) -> SignalCapabilitiesView {
        SignalCapabilitiesView {
            sigq: self.sigq@,
            sigpnd: self.sigpnd@,
            shdpnd: self.shdpnd@,
            sigblk: self.sigblk@,
            sigign: self.sigign@,
            sigcgt: self.sigcgt@,
            capinh: self.capinh@,
            capprm: self.capprm@,
            capeff: self.capeff@,
            capbnd: self.capbnd@,
            capamb: self.capamb@,
        }
    }
}

/// The masks after one line: the mask the key names takes the value;
/// `None` when the key names none.
pub open spec fn signal_set(s: SignalCapabilitiesView, key: Seq<char>, value: Seq<char>) -> Option<
    SignalCapabilitiesView,
> {
    if key == "sigq"@ {
        Some(SignalCapabilitiesView { sigq: value, ..s })
    } else if key == "sigpnd"@ {
        Some(SignalCapabilitiesView { sigpnd: value, ..s })
    } else if key == "shdpnd"@ {
        Some(SignalCapabilitiesView { shdpnd: value, ..s })
    } else if key == "sigblk"@ {
        Some(SignalCapabilitiesView { sigblk: value, ..s })
    } else if key == "sigign"@ {
        Some(SignalCapabilitiesView { sigign: value, ..s })
    } else if key == "sigcgt"@ {
        Some(SignalCapabilitiesView { sigcgt: value, ..s })
    } else if key == "capinh"@ {
        Some(SignalCapabilitiesView { capinh: value, ..s })
    } else if key == "capprm"@ {
        Some(SignalCapabilitiesView { capprm: value, ..s })
    } else if key == "capeff"@ {
        Some(SignalCapabilitiesView { capeff: value, ..s })
    } else if key == "capbnd"@ {
        Some(SignalCapabilitiesView { capbnd: value, ..s })
    } else if key == "capamb"@ {
        Some(SignalCapabilitiesView { capamb: value, ..s })
    } else {
        None
    }
}

/// All masks empty.
pub open spec fn signal_empty() -> SignalCapabilitiesView {
    SignalCapabilitiesView {
        sigq: Seq::empty(),
        sigpnd: Seq::empty(),
        shdpnd: Seq::empty(),
        sigblk: Seq::empty(),
        sigign: Seq::empty(),
        sigcgt: Seq::empty(),
        capinh: Seq::empty(),
        capprm: Seq::empty(),
        capeff: Seq::empty(),
        capbnd: Seq::empty(),
        capamb: Seq::empty(),
    }
}

impl SignalCapabilitiesStatus {
    /// All masks empty.
    pub fn new() -> (r: Self)
        ensures
            r@ == signal_empty(),
    {
        SignalCapabilitiesStatus {
            sigq: String::new(),
            sigpnd: String::new(),
            shdpnd: String::new(),
            sigblk: String::new(),
            sigign: String::new(),
            sigcgt: String::new(),
            capinh: String::new(),
            capprm: String::new(),
            capeff: String::new(),
            capbnd: String::new(),
            capamb: String::new(),
        }
    }

    /// Takes one `key: value` line when the key names a mask; tells
    /// whether it did.
    pub fn set_data(&mut self, key: &[char], value: &[char]) -> (r: bool)
        ensures
            r == signal_set(old(self)@, key@, value@) is Some,
            r ==> final(self)@ == signal_set(old(self)@, key@, value@)->0,
            !r ==> final(self)@ == old(self)@,
    {
        if eq_str(key, "sigq") {
            self.sigq = string_of(value);
        } else if eq_str(key, "sigpnd") {
            self.sigpnd = string_of(value);
        } else if eq_str(key, "shdpnd") {
            self.shdpnd = string_of(value);
        } else if eq_str(key, "sigblk") {
            self.sigblk = string_of(value);
        } else if eq_str(key, "sigign") {
            self.sigign = string_of(value);
        } else if eq_str(key, "sigcgt") {
            self.sigcgt = string_of(value);
        } else if eq_str(key, "capinh") {
            self.capinh = string_of(value);
        } else if eq_str(key, "capprm") {
            self.capprm = string_of(value);
        } else if eq_str(key, "capeff") {
            self.capeff = string_of(value);
        } else if eq_str(key, "capbnd") {
            self.capbnd = string_of(value);
        } else if eq_str(key, "capamb") {
            self.capamb = string_of(value);
        } else {
            return false;
        }
        true
    }
}

/// Who the process is.
#[derive(Debug, Clone)]
pub struct IdentityStatus {
    pub name: String,
    pub umask: String,
    pub state: String,
    pub thread_group_id: usize,
    pub num_group_id: usize,
    pub pid: usize,
    pub ppid: usize,
    pub tracer_pid: usize,
}

/// An `IdentityStatus` with its texts as characters.
pub struct IdentityView {
    pub name: Seq<char>,
    pub umask: Seq<char>,
    pub state: Seq<char>,
    pub thread_group_id: usize,
    pub num_group_id: usize,
    pub pid: usize,
    pub ppid: usize,
    pub tracer_pid: usize,
}

impl View for IdentityStatus {
    type V = IdentityView;

    open spec fn view(&self) -> IdentityView {
        IdentityView {
            name: self.name@,
            umask: self.umask@,
            state: self.state@,
            thread_group_id: self.thread_group_id,
            num_group_id: self.num_group_id,
            pid: self.pid,
            ppid: self.ppid,
            tracer_pid: self.tracer_pid,
        }
    }
}

/// The identity after one line: `name`, `state` and `umask` take the
/// text, `tgid`, `pid`, `ppid` and `tracerpid` its number (zero when it
/// is none); `None` for other keys.
pub open spec fn identity_set(s: IdentityView, key: Seq<char>, value: Seq<char>) -> Option<
    IdentityView,
> {
    let n = usize_or(value, 0);
    if key == "name"@ {
        Some(IdentityView { name: value, ..s })
    } else if key == "state"@ {
        Some(IdentityView { state: value, ..s })
    } else if key == "umask"@ {
        Some(IdentityView { umask: value, ..s })
    } else if key == "tgid"@ {
        Some(IdentityView { thread_group_id: n, ..s })
    } else if key == "pid"@ {
        Some(IdentityView { pid: n, ..s })
    } else if key == "ppid"@ {
        Some(IdentityView { ppid: n, ..s })
    } else if key == "tracerpid"@ {
        Some(IdentityView { tracer_pid: n, ..s })
    } else {
        None
    }
}

/// No identity yet: empty texts and zero numbers.
pub open spec fn identity_empty() -> IdentityView {
    IdentityView {
        name: Seq::empty(),
        umask: Seq::empty(),
        state: Seq::empty(),
        thread_group_id: 0,
        num_group_id: 0,
        pid: 0,
        ppid: 0,
        tracer_pid: 0,
    }
}

impl IdentityStatus {
    /// No identity yet.
    pub fn new() -> (r: Self)
        ensures
            r@ == identity_empty(),
    {
        IdentityStatus {
            name: String::new(),
            umask: String::new(),
            state: String::new(),
            thread_group_id: 0,
            num_group_id: 0,
            pid: 0,
            ppid: 0,
            tracer_pid: 0,
        }
    }

    /// Takes one `key: value` line when the key names a part of the
    /// identity; tells whether it did.
    pub fn set_data(&mut self, key: &[char], value: &[char]) -> (r: bool)
        ensures
            r == identity_set(old(self)@, key@, value@) is Some,
            r ==> final(self)@ == identity_set(old(self)@, key@, value@)->0,
            !r ==> final(self)@ == old(self)@,
    {
        if eq_str(key, "name") {
            self.name = string_of(value);
        } else if eq_str(key, "state") {
            self.state = string_of(value);
        } else if eq_str(key, "umask") {
            self.umask = string_of(value);
        } else {
            let n = parse_usize_or(value, 0);
            if eq_str(key, "tgid") {
                self.thread_group_id = n;
            } else if eq_str(key, "pid") {
                self.pid = n;
            } else if eq_str(key, "ppid") {
                self.ppid = n;
            } else if eq_str(key, "tracerpid") {
                self.tracer_pid = n;
            } else {
                return false;
            }
        }
        true
    }
}

/// The user and group ids of the process.
#[derive(Debug, Clone)]
pub struct CredentialStatus {
    pub uid: usize,
    pub gid: usize,
    pub euid: usize,
    pub egid: usize,
    pub suid: usize,
    pub sgid: usize,
    pub fsuid: usize,
    pub fsgid: usize,
    pub fd_size: usize,
    pub groups: Vec<usize>,
}

/// A `CredentialStatus` with its groups as a sequence.
pub struct CredentialView {
    pub uid: usize,
    pub gid: usize,
    pub euid: usize,
    pub egid: usize,
    pub suid: usize,
    pub sgid: usize,
    pub fsuid: usize,
    pub fsgid: usize,
    pub fd_size: usize,
    pub groups: Seq<usize>,
}

impl View for CredentialStatus {
    type V = CredentialView;

    open spec fn view(&self) -> CredentialView {
        CredentialView {
            uid: self.uid,
            gid: self.gid,
            euid: self.euid,
            egid: self.egid,
            suid: self.suid,
            sgid: self.sgid,
            fsuid: self.fsuid,
            fsgid: self.fsgid,
            fd_size: self.fd_size,
            groups: self.groups@,
        }
    }
}

/// The numbers of the words, each read as a `usize` or zero.
pub open spec fn word_numbers(words: Seq<Seq<char>>) -> Seq<usize> {
    Seq::new(words.len(), |i: int| usize_or(words[i], 0))
}

/// The four ids of a `Uid:` or `Gid:` line in the order the line gives
/// them (real, effective, saved, filesystem); a missing one falls back to
/// the real id, which is zero when there is no number at all.
pub open spec fn id_quad(v: Seq<usize>) -> (usize, usize, usize, usize) {
    let n = v.len();
    let id: usize = if n >= 1 { v[0] } else { 0 };
    (
        id,
        if n >= 2 { v[1] } else { id },
        if n >= 3 { v[2] } else { id },
        if n >= 4 { v[3] } else { id },
    )
}

/// The nonzero group ids of the words, in order; words that are no number
/// count as zero.
pub open spec fn nonzero_groups(words: Seq<Seq<char>>) -> Seq<usize>
    decreases words.len(),
{
    if words.len() == 0 {
        Seq::empty()
    } else {
        let g = usize_or(words.last(), 0);
        if g == 0 {
            nonzero_groups(words.drop_last())
        } else {
            nonzero_groups(words.drop_last()).push(g)
        }
    }
}

/// The credentials after one line: `fdsize` sets the descriptor limit,
/// `groups` appends the nonzero group ids, `uid` and `gid` set their four
/// ids; `None` for other keys.
pub open spec fn credential_set(s: CredentialView, key: Seq<char>, value: Seq<char>) -> Option<
    CredentialView,
> {
    let q = id_quad(word_numbers(split_ws(value)));
    if key == "fdsize"@ {
        Some(CredentialView { fd_size: usize_or(value, 0), ..s })
    } else if key == "groups"@ {
        Some(CredentialView { groups: s.groups + nonzero_groups(split_ws(value)), ..s })
    } else if key == "uid"@ {
        Some(CredentialView { uid: q.0, euid: q.1, suid: q.2, fsuid: q.3, ..s })
    } else if key == "gid"@ {
        Some(CredentialView { gid: q.0, egid: q.1, sgid: q.2, fsgid: q.3, ..s })
    } else {
        None
    }
}

/// No credentials yet: zero ids, no groups.
pub open spec fn credential_empty() -> CredentialView {
    CredentialView {
        uid: 0,
        gid: 0,
        euid: 0,
        egid: 0,
        suid: 0,
        sgid: 0,
        fsuid: 0,
        fsgid: 0,
        fd_size: 0,
        groups: Seq::empty(),
    }
}

impl CredentialStatus {
    /// No credentials yet.
    pub fn new() -> (r: Self)
        ensures
            r@ == credential_empty(),
    {
        CredentialStatus {
            uid: 0,
            gid: 0,
            euid: 0,
            egid: 0,
            suid: 0,
            sgid: 0,
            fsuid: 0,
            fsgid: 0,
            fd_size: 0,
            groups: Vec::new(),
        }
    }

    /// The four ids of a `Uid:` or `Gid:` value, in line order.
    pub fn split_id(value: &[char]) -> (r: (usize, usize, usize, usize))
        ensures
            r == id_quad(word_numbers(split_ws(value@))),
    {
        let words = split_whitespace(value);
        let mut v: Vec<usize> = Vec::new();
        let mut i: usize = 0;
        while i < words.len()
            invariant
                0 <= i <= words@.len() == split_ws(value@).len(),
                forall|j: int| 0 <= j < words@.len() ==> #[trigger] words@[j]@ == split_ws(value@)[j],
                v@ =~= word_numbers(split_ws(value@)).take(i as int),
            decreases words@.len() - i,
        {
            let n = parse_usize_or(&words[i], 0);
            v.push(n);
            i = i + 1;
        }
        assert(v@ =~= word_numbers(split_ws(value@)));
        let n = v.len();
        let id: usize = if n >= 1 { v[0] } else { 0 };
        let e_id: usize = if n >= 2 { v[1] } else { id };
        let s_id: usize = if n >= 3 { v[2] } else { id };
        let fs_id: usize = if n >= 4 { v[3] } else { id };
        (id, e_id, s_id, fs_id)
    }

    /// Takes one `key: value` line when the key names credentials; tells
    /// whether it did.
    pub fn set_data(&mut self, key: &[char], value: &[char]) -> (r: bool)
        ensures
            r == credential_set(old(self)@, key@, value@) is Some,
            r ==> final(self)@ == credential_set(old(self)@, key@, value@)->0,
            !r ==> final(self)@ == old(self)@,
    {
        if eq_str(key, "fdsize") {
            self.fd_size = parse_usize_or(value, 0);
        } else if eq_str(key, "groups") {
            let words = split_whitespace(value);
            let ghost ws = split_ws(value@);
            let ghost g0 = self.groups@;
            let mut i: usize = 0;
            while i < words.len()
                invariant
                    0 <= i <= words@.len() == ws.len(),
                    ws == split_ws(value@),
                    forall|j: int| 0 <= j < words@.len() ==> #[trigger] words@[j]@ == ws[j],
                    self.groups@ == g0 + nonzero_groups(ws.take(i as int)),
                    self.uid == old(self).uid,
                    self.gid == old(self).gid,
                    self.euid == old(self).euid,
                    self.egid == old(self).egid,
                    self.suid == old(self).suid,
                    self.sgid == old(self).sgid,
                    self.fsuid == old(self).fsuid,
                    self.fsgid == old(self).fsgid,
                    self.fd_size == old(self).fd_size,
                    g0 == old(self).groups@,
                decreases words@.len() - i,
            {
                let gid = parse_usize_or(&words[i], 0);
                assert(ws.take(i + 1).drop_last() =~= ws.take(i as int));
                if gid != 0 {
                    self.groups.push(gid);
                    assert(g0 + nonzero_groups(ws.take(i + 1)) =~= (g0 + nonzero_groups(
                        ws.take(i as int),
                    )).push(gid));
                }
                i = i + 1;
            }
            assert(ws.take(ws.len() as int) =~= ws);
        } else if eq_str(key, "uid") {
            let (a, b, c, d) = Self::split_id(value);
            self.uid = a;
            self.euid = b;
            self.suid = c;
            self.fsuid = d;
        } else if eq_str(key, "gid") {
            let (a, b, c, d) = Self::split_id(value);
            self.gid = a;
            self.egid = b;
            self.sgid = c;
            self.fsgid = d;
        } else {
            return false;
        }
        true
    }
}

/// Namespace ids of the process.
#[derive(Debug, Clone, Copy, PartialEq, Eq, Structural)]
pub struct NameSpaceThreadStatus {
    pub thread_group_id: usize,
    pub pid: usize,
    pub ppid: usize,
    pub sid: usize,
    pub kthread: usize,
}

/// The namespace ids after one line: the id the key names takes the
/// number (zero when it is none); `None` for other keys.
pub open spec fn namespace_set(s: NameSpaceThreadStatus, key: Seq<char>, value: Seq<char>) -> Option<
    NameSpaceThreadStatus,
> {
    let n = usize_or(value, 0);
    if key == "nstgid"@ {
        Some(NameSpaceThreadStatus { thread_group_id: n, ..s })
    } else if key == "nspid"@ {
        Some(NameSpaceThreadStatus { pid: n, ..s })
    } else if key == "nspgid"@ {
        Some(NameSpaceThreadStatus { ppid: n, ..s })
    } else if key == "nssid"@ {
        Some(NameSpaceThreadStatus { sid: n, ..s })
    } else if key == "kthread"@ {
        Some(NameSpaceThreadStatus { kthread: n, ..s })
    } else {
        None
    }
}

impl NameSpaceThreadStatus {
    /// All ids zero.
    pub fn new() -> (r: Self)
        ensures
            r.thread_group_id == 0,
            r.pid == 0,
            r.ppid == 0,
            r.sid == 0,
            r.kthread == 0,
    {
        NameSpaceThreadStatus {
            thread_group_id: 0,
            pid: 0,
            ppid: 0,
            sid: 0,
            kthread: 0,
        }
    }

    /// Takes one `key: value` line when the key names a namespace id;
    /// tells whether it did.
    pub fn set_data(&mut self, key: &[char], value: &[char]) -> (r: bool)
        ensures
            r == namespace_set(*old(self), key@, value@) is Some,
            r ==> *final(self) == namespace_set(*old(self), key@, value@)->0,
            !r ==> *final(self) == *old(self),
    {
        let n = parse_usize_or(value, 0);
        if eq_str(key, "nstgid") {
            self.thread_group_id = n;
        } else if eq_str(key, "nspid") {
            self.pid = n;
        } else if eq_str(key, "nspgid") {
            self.ppid = n;
        } else if eq_str(key, "nssid") {
            self.sid = n;
        } else if eq_str(key, "kthread") {
            self.kthread = n;
        } else {
            return false;
        }
        true
    }
}

/// Memory use of the process, in bytes.
#[derive(Debug, Clone, Copy, PartialEq, Eq, Structural)]
pub struct MemoryStatus {
    pub vm_hwm: usize,
    pub vm_peak: usize,
    pub vm_rss: usize,
    pub vm_size: usize,
    pub vm_pin: usize,
    pub vm_data: usize,
    pub vm_stk: usize,
    pub vm_exe: usize,
    pub vm_lib: usize,
    pub vm_pte: usize,
    pub vm_lck: usize,
    pub vm_swap: usize,
    pub rss_anon: usize,
    pub rss_file: usize,
    pub rss_sh_mem: usize,
}

/// The memory figures after one line: the figure the key names takes the
/// size in bytes (zero when the value is no size); `None` for other keys.
pub open spec fn memory_set(s: MemoryStatus, key: Seq<char>, value: Seq<char>) -> Option<
    MemoryStatus,
> {
    let n = size_or_zero(value) as usize;
    if key == "vmpeak"@ {
        Some(MemoryStatus { vm_peak: n, ..s })
    } else if key == "vmsize"@ {
        Some(MemoryStatus { vm_size: n, ..s })
    } else if key == "vmlck"@ {
        Some(MemoryStatus { vm_lck: n, ..s })
    } else if key == "vmpin"@ {
        Some(MemoryStatus { vm_pin: n, ..s })
    } else if key == "vmhwm"@ {
        Some(MemoryStatus { vm_hwm: n, ..s })
    } else if key == "vmrss"@ {
        Some(MemoryStatus { vm_rss: n, ..s })
    } else if key == "rssanon"@ {
        Some(MemoryStatus { rss_anon: n, ..s })
    } else if key == "rssfile"@ {
        Some(MemoryStatus { rss_file: n, ..s })
    } else if key == "rssshmem"@ {
        Some(MemoryStatus { rss_sh_mem: n, ..s })
    } else if key == "vmdata"@ {
        Some(MemoryStatus { vm_data: n, ..s })
    } else if key == "vmstk"@ {
        Some(MemoryStatus { vm_stk: n, ..s })
    } else if key == "vmexe"@ {
        Some(MemoryStatus { vm_exe: n, ..s })
    } else if key == "vmlib"@ {
        Some(MemoryStatus { vm_lib: n, ..s })
    } else if key == "vmpte"@ {
        Some(MemoryStatus { vm_pte: n, ..s })
    } else if key == "vmswap"@ {
        Some(MemoryStatus { vm_swap: n, ..s })
    } else {
        None
    }
}

impl MemoryStatus {
    /// All figures zero.
    pub fn new() -> (r: Self)
        ensures
            r.vm_hwm == 0,
            r.vm_peak == 0,
            r.vm_rss == 0,
            r.vm_size == 0,
            r.vm_pin == 0,
            r.vm_data == 0,
            r.vm_stk == 0,
            r.vm_exe == 0,
            r.vm_lib == 0,
            r.vm_pte == 0,
            r.vm_lck == 0,
            r.vm_swap == 0,
            r.rss_anon == 0,
            r.rss_file == 0,
            r.rss_sh_mem == 0,
    {
        MemoryStatus {
            vm_hwm: 0,
            vm_peak: 0,
            vm_rss: 0,
            vm_size: 0,
            vm_pin: 0,
            vm_data: 0,
            vm_stk: 0,
            vm_exe: 0,
            vm_lib: 0,
            vm_pte: 0,
            vm_lck: 0,
            vm_swap: 0,
            rss_anon: 0,
            rss_file: 0,
            rss_sh_mem: 0,
        }
    }

    /// Takes one `key: value` line when the key names a memory figure;
    /// tells whether it did.
    pub fn set_data(&mut self, key: &[char], value: &[char]) -> (r: bool)
        ensures
            r == memory_set(*old(self), key@, value@) is Some,
            r ==> *final(self) == memory_set(*old(self), key@, value@)->0,
            !r ==> *final(self) == *old(self),
    {
        let n = match size_of_chars(value) {
            Some(b) => b as usize,
            None => 0,
        };
        if eq_str(key, "vmpeak") {
            self.vm_peak = n;
        } else if eq_str(key, "vmsize") {
            self.vm_size = n;
        } else if eq_str(key, "vmlck") {
            self.vm_lck = n;
        } else if eq_str(key, "vmpin") {
            self.vm_pin = n;
        } else if eq_str(key, "vmhwm") {
            self.vm_hwm = n;
        } else if eq_str(key, "vmrss") {
            self.vm_rss = n;
        } else if eq_str(key, "rssanon") {
            self.rss_anon = n;
        } else if eq_str(key, "rssfile") {
            self.rss_file = n;
        } else if eq_str(key, "rssshmem") {
            self.rss_sh_mem = n;
        } else if eq_str(key, "vmdata") {
            self.vm_data = n;
        } else if eq_str(key, "vmstk") {
            self.vm_stk = n;
        } else if eq_str(key, "vmexe") {
            self.vm_exe = n;
        } else if eq_str(key, "vmlib") {
            self.vm_lib = n;
        } else if eq_str(key, "vmpte") {
            self.vm_pte = n;
        } else if eq_str(key, "vmswap") {
            self.vm_swap = n;
        } else {
            return false;
        }
        true
    }
}

/// The status of a process.
#[derive(Debug, Clone)]
pub struct Status {
    pub credential: CredentialStatus,
    pub identity: IdentityStatus,
    pub memory: MemoryStatus,
    pub signal_capabilities: SignalCapabilitiesStatus,
    pub namespace_thread: NameSpaceThreadStatus,
}

/// A `Status` seen through the views of its sections.
pub struct StatusView {
    pub credential: CredentialView,
    pub identity: IdentityView,
    pub memory: MemoryStatus,
    pub signal_capabilities: SignalCapabilitiesView,
    pub namespace_thread: NameSpaceThreadStatus,
}

impl View for Status {
    type V = StatusView;

    open spec fn view(&self) -> StatusView {
        StatusView {
            credential: self.credential@,
            identity: self.identity@,
            memory: self.memory,
            signal_capabilities: self.signal_capabilities@,
            namespace_thread: self.namespace_thread,
        }
    }
}

/// The empty status.
pub open spec fn status_empty() -> StatusView {
    StatusView {
        credential: credential_empty(),
        identity: identity_empty(),
        memory: MemoryStatus {
            vm_hwm: 0,
            vm_peak: 0,
            vm_rss: 0,
            vm_size: 0,
            vm_pin: 0,
            vm_data: 0,
            vm_stk: 0,
            vm_exe: 0,
            vm_lib: 0,
            vm_pte: 0,
            vm_lck: 0,
            vm_swap: 0,
            rss_anon: 0,
            rss_file: 0,
            rss_sh_mem: 0,
        },
        signal_capabilities: signal_empty(),
        namespace_thread: NameSpaceThreadStatus {
            thread_group_id: 0,
            pid: 0,
            ppid: 0,
            sid: 0,
            kthread: 0,
        },
    }
}

/// The status after one line: a `key: value` line goes to the first of
/// identity, memory, credentials, signals and namespaces whose key it is;
/// other lines change nothing.
pub open spec fn status_line(s: StatusView, line: Seq<char>) -> StatusView {
    match key_value(line, ':') {
        None => s,
        Some((k, v)) => if identity_set(s.identity, k, v) is Some {
            StatusView { identity: identity_set(s.identity, k, v)->0, ..s }
        } else if memory_set(s.memory, k, v) is Some {
            StatusView { memory: memory_set(s.memory, k, v)->0, ..s }
        } else if credential_set(s.credential, k, v) is Some {
            StatusView { credential: credential_set(s.credential, k, v)->0, ..s }
        } else if signal_set(s.signal_capabilities, k, v) is Some {
            StatusView { signal_capabilities: signal_set(s.signal_capabilities, k, v)->0, ..s }
        } else if namespace_set(s.namespace_thread, k, v) is Some {
            StatusView { namespace_thread: namespace_set(s.namespace_thread, k, v)->0, ..s }
        } else {
            s
        },
    }
}

/// The status that the lines describe, read from first to last.
pub open spec fn status_of_lines(lines: Seq<Seq<char>>) -> StatusView
    decreases lines.len(),
{
    if lines.len() == 0 {
        status_empty()
    } else {
        status_line(status_of_lines(lines.drop_last()), lines.last())
    }
}

/// The views of the lines.
pub open spec fn line_views(lines: Seq<String>) -> Seq<Seq<char>> {
    Seq::new(lines.len(), |i: int| lines[i]@)
}

impl Status {
    /// The empty status.
    pub fn new() -> (r: Self)
        ensures
            r@ == status_empty(),
    {
        Status {
            credential: CredentialStatus::new(),
            identity: IdentityStatus::new(),
            memory: MemoryStatus::new(),
            signal_capabilities: SignalCapabilitiesStatus::new(),
            namespace_thread: NameSpaceThreadStatus::new(),
        }
    }

    /// Takes one line of the status file.
    pub fn read_line(&mut self, line: &str)
        ensures
            final(self)@ == status_line(old(self)@, line@),
    {
        let cs = crate::text::chars_of(line);
        if let Some((k, v)) = split_key_value(&cs, ':') {
            if self.identity.set_data(&k, &v) {
                return;
            }
            if self.memory.set_data(&k, &v) {
                return;
            }
            if self.credential.set_data(&k, &v) {
                return;
            }
            if self.signal_capabilities.set_data(&k, &v) {
                return;
            }
            if self.namespace_thread.set_data(&k, &v) {
                return;
            }
        }
    }

    /// The status that the lines of a status file describe.
    pub fn parse_lines(lines: &Vec<String>) -> (r: Status)
        ensures
            r@ == status_of_lines(line_views(lines@)),
    {
        let mut st = Status::new();
        let mut i: usize = 0;
        while i < lines.len()
            invariant
                0 <= i <= lines@.len(),
                st@ == status_of_lines(line_views(lines@).take(i as int)),
            decreases lines@.len() - i,
        {
            assert(line_views(lines@).take(i + 1).drop_last() =~= line_views(lines@).take(
                i as int,
            ));
            st.read_line(lines[i].as_str());
            i = i + 1;
        }
        assert(line_views(lines@).take(lines@.len() as int) =~= line_views(lines@));
        st
    }
}

/// The memory figure that a lower-case key such as `vmsize` names, as read
/// back from the figures; `None` for a key that names none.
pub open spec fn memory_figure(m: MemoryStatus, key: Seq<char>) -> Option<usize> {
    if key == "vmpeak"@ {
        Some(m.vm_peak)
    } else if key == "vmsize"@ {
        Some(m.vm_size)
    } else if key == "vmlck"@ {
        Some(m.vm_lck)
    } else if key == "vmpin"@ {
        Some(m.vm_pin)
    } else if key == "vmhwm"@ {
        Some(m.vm_hwm)
    } else if key == "vmrss"@ {
        Some(m.vm_rss)
    } else if key == "rssanon"@ {
        Some(m.rss_anon)
    } else if key == "rssfile"@ {
        Some(m.rss_file)
    } else if key == "rssshmem"@ {
        Some(m.rss_sh_mem)
    } else if key == "vmdata"@ {
        Some(m.vm_data)
    } else if key == "vmstk"@ {
        Some(m.vm_stk)
    } else if key == "vmexe"@ {
        Some(m.vm_exe)
    } else if key == "vmlib"@ {
        Some(m.vm_lib)
    } else if key == "vmpte"@ {
        Some(m.vm_pte)
    } else if key == "vmswap"@ {
        Some(m.vm_swap)
    } else {
        None
    }
}

/// A memory line is taken exactly when its key names a figure; reading that
/// figure back then gives the size the line carried, in bytes (zero when the
/// value is no size), and every figure under another key stays as it was.
pub proof fn lemma_memory_set_reads_back(
    s: MemoryStatus,
    key: Seq<char>,
    other: Seq<char>,
    value: Seq<char>,
)
    ensures
        memory_set(s, key, value) is Some <==> memory_figure(s, key) is Some,
        memory_set(s, key, value) matches Some(t) ==> memory_figure(t, key) == Some(
            size_or_zero(value) as usize,
        ),
        other != key ==> (memory_set(s, key, value) matches Some(t) ==> memory_figure(t, other)
            == memory_figure(s, other)),
{
}

/// After a `VmSize` line the virtual memory size holds the line's size in
/// bytes (zero when the value is no size) and all other memory figures are
/// unchanged.
pub proof fn lemma_memory_set_vm_size(s: MemoryStatus, value: Seq<char>)
    ensures
        memory_set(s, "vmsize"@, value) matches Some(t) && {
            &&& t.vm_size == size_or_zero(value) as usize
            &&& t.vm_hwm == s.vm_hwm
            &&& t.vm_peak == s.vm_peak
            &&& t.vm_rss == s.vm_rss
            &&& t.vm_pin == s.vm_pin
            &&& t.vm_data == s.vm_data
            &&& t.vm_stk == s.vm_stk
            &&& t.vm_exe == s.vm_exe
            &&& t.vm_lib == s.vm_lib
            &&& t.vm_pte == s.vm_pte
            &&& t.vm_lck == s.vm_lck
            &&& t.vm_swap == s.vm_swap
            &&& t.rss_anon == s.rss_anon
            &&& t.rss_file == s.rss_file
            &&& t.rss_sh_mem == s.rss_sh_mem
        },
{
    reveal_strlit("vmpeak");
    reveal_strlit("vmsize");
    assert("vmpeak"@[2] == 'p' && "vmsize"@[2] == 's');
}

/// The mask that a lower-case key such as `sigblk` names, as read back from
/// the masks; `None` for a key that names none.
pub open spec fn signal_field(m: SignalCapabilitiesView, key: Seq<char>) -> Option<Seq<char>> {
    if key == "sigq"@ {
        Some(m.sigq)
    } else if key == "sigpnd"@ {
        Some(m.sigpnd)
    } else if key == "shdpnd"@ {
        Some(m.shdpnd)
    } else if key == "sigblk"@ {
        Some(m.sigblk)
    } else if key == "sigign"@ {
        Some(m.sigign)
    } else if key == "sigcgt"@ {
        Some(m.sigcgt)
    } else if key == "capinh"@ {
        Some(m.capinh)
    } else if key == "capprm"@ {
        Some(m.capprm)
    } else if key == "capeff"@ {
        Some(m.capeff)
    } else if key == "capbnd"@ {
        Some(m.capbnd)
    } else if key == "capamb"@ {
        Some(m.capamb)
    } else {
        None
    }
}

/// A signal or capability line is taken exactly when its key names a mask;
/// reading that mask back gives the line's value, and every mask under
/// another key stays as it was.
pub proof fn lemma_signal_set_reads_back(
    s: SignalCapabilitiesView,
    key: Seq<char>,
    other: Seq<char>,
    value: Seq<char>,
)
    ensures
        signal_set(s, key, value) is Some <==> signal_field(s, key) is Some,
        signal_set(s, key, value) matches Some(t) ==> signal_field(t, key) == Some(value),
        other != key ==> (signal_set(s, key, value) matches Some(t) ==> signal_field(t, other)
            == signal_field(s, other)),
{
}

/// The text that `name`, `state` or `umask` names in an identity; `None`
/// for other keys.
pub open spec fn identity_text(m: IdentityView, key: Seq<char>) -> Option<Seq<char>> {
    if key == "name"@ {
        Some(m.name)
    } else if key == "state"@ {
        Some(m.state)
    } else if key == "umask"@ {
        Some(m.umask)
    } else {
        None
    }
}

/// The number that `tgid`, `pid`, `ppid` or `tracerpid` names in an
/// identity; `None` for other keys.
pub open spec fn identity_number(m: IdentityView, key: Seq<char>) -> Option<usize> {
    if key == "tgid"@ {
        Some(m.thread_group_id)
    } else if key == "pid"@ {
        Some(m.pid)
    } else if key == "ppid"@ {
        Some(m.ppid)
    } else if key == "tracerpid"@ {
        Some(m.tracer_pid)
    } else {
        None
    }
}

/// An identity line is taken exactly when its key names a text or a number
/// of the identity; reading it back gives the line's text, or its number
/// (zero when it is none), and what other keys name stays as it was.
pub proof fn lemma_identity_set_reads_back(
    s: IdentityView,
    key: Seq<char>,
    other: Seq<char>,
    value: Seq<char>,
)
    ensures
        identity_set(s, key, value) is Some <==> (identity_text(s, key) is Some
            || identity_number(s, key) is Some),
        identity_set(s, key, value) matches Some(t) ==> (identity_text(s, key) is Some
            ==> identity_text(t, key) == Some(value)),
        identity_set(s, key, value) matches Some(t) ==> (identity_number(s, key) is Some
            ==> identity_number(t, key) == Some(usize_or(value, 0))),
        other != key ==> (identity_set(s, key, value) matches Some(t) ==> identity_text(t, other)
            == identity_text(s, other) && identity_number(t, other) == identity_number(s, other)),
{
    reveal_strlit("name");
    reveal_strlit("state");
    reveal_strlit("umask");
    reveal_strlit("tgid");
    reveal_strlit("pid");
    reveal_strlit("ppid");
    reveal_strlit("tracerpid");
    assert("name"@.len() == 4 && "state"@.len() == 5 && "umask"@.len() == 5);
    assert("tgid"@.len() == 4 && "pid"@.len() == 3 && "ppid"@.len() == 4);
    assert("tracerpid"@.len() == 9);
    assert("name"@[0] == 'n' && "tgid"@[0] == 't' && "ppid"@[0] == 'p');
    assert("state"@[0] == 's' && "umask"@[0] == 'u');
}

/// The id that a lower-case key such as `nspid` names in the namespace ids;
/// `None` for a key that names none.
pub open spec fn namespace_field(m: NameSpaceThreadStatus, key: Seq<char>) -> Option<usize> {
    if key == "nstgid"@ {
        Some(m.thread_group_id)
    } else if key == "nspid"@ {
        Some(m.pid)
    } else if key == "nspgid"@ {
        Some(m.ppid)
    } else if key == "nssid"@ {
        Some(m.sid)
    } else if key == "kthread"@ {
        Some(m.kthread)
    } else {
        None
    }
}

/// A namespace line is taken exactly when its key names an id; reading that
/// id back gives the line's number (zero when it is none), and every id
/// under another key stays as it was.
pub proof fn lemma_namespace_set_reads_back(
    s: NameSpaceThreadStatus,
    key: Seq<char>,
    other: Seq<char>,
    value: Seq<char>,
)
    ensures
        namespace_set(s, key, value) is Some <==> namespace_field(s, key) is Some,
        namespace_set(s, key, value) matches Some(t) ==> namespace_field(t, key) == Some(
            usize_or(value, 0),
        ),
        other != key ==> (namespace_set(s, key, value) matches Some(t) ==> namespace_field(
            t,
            other,
        ) == namespace_field(s, other)),
{
}

} // verus!
