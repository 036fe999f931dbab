//! Processors, as `/proc/cpuinfo` describes them, and processor load, as
//! `/proc/stat` counts it.
use vstd::prelude::*;

use crate::hack::{size_of_chars, size_or_zero};
use crate::table::{copy_strings, string_views};
use crate::text::{
    chars_of, dec, eq_str, fmt_u128, key_value, lowercase, parse_usize_or, push_all,
    split_key_value, split_whitespace, split_ws, string_of, strings_of, to_lowercase, usize_or,
};

verus! {

/// One logical processor.
#[derive(Debug, Clone)]
pub struct Cpu {
    pub processor: usize,
    pub vendor_id: String,
    pub cpu_family: usize,
    pub model: usize,
    pub model_name: String,
    pub stepping: usize,
    pub microcode: String,
    pub cpu_mhz: String,
    pub cpu_hz: usize,
    pub cache_size: usize,
    pub physical_id: usize,
    pub siblings: usize,
    pub core_id: usize,
    pub cpu_cores: usize,
    pub apicid: usize,
    pub initial_apicid: usize,
    pub fpu: bool,
    pub fpu_exception: bool,
    pub cpuid_level: usize,
    pub wp: bool,
    pub flags: Vec<String>,
    pub vmx_flags: Vec<String>,
    pub bugs: Vec<String>,
    pub bogomips: String,
    pub clflush_size: usize,
    pub cache_alignment: usize,
    pub address_sizes: String,
    pub power_management: String,
}

/// A `Cpu` with its texts as characters.
pub struct CpuView {
    pub processor: usize,
    pub vendor_id: Seq<char>,
    pub cpu_family: usize,
    pub model: usize,
    pub model_name: Seq<char>,
    pub stepping: usize,
    pub microcode: Seq<char>,
    pub cpu_mhz: Seq<char>,
    pub cpu_hz: usize,
    pub cache_size: usize,
    pub physical_id: usize,
    pub siblings: usize,
    pub core_id: usize,
    pub cpu_cores: usize,
    pub apicid: usize,
    pub initial_apicid: usize,
    pub fpu: bool,
    pub fpu_exception: bool,
    pub cpuid_level: usize,
    pub wp: bool,
    pub flags: Seq<Seq<char>>,
    pub vmx_flags: Seq<Seq<char>>,
    pub bugs: Seq<Seq<char>>,
    pub bogomips: Seq<char>,
    pub clflush_size: usize,
    pub cache_alignment: usize,
    pub address_sizes: Seq<char>,
    pub power_management: Seq<char>,
}

impl View for Cpu {
    type V = CpuView;

    open spec fn view(&self) -> CpuView {
        CpuView {
            processor: self.processor,
            vendor_id: self.vendor_id@,
            cpu_family: self.cpu_family,
            model: self.model,
            model_name: self.model_name@,
            stepping: self.stepping,
            microcode: self.microcode@,
            cpu_mhz: self.cpu_mhz@,
            cpu_hz: self.cpu_hz,
            cache_size: self.cache_size,
            physical_id: self.physical_id,
            siblings: self.siblings,
            core_id: self.core_id,
            cpu_cores: self.cpu_cores,
            apicid: self.apicid,
            initial_apicid: self.initial_apicid,
            fpu: self.fpu,
            fpu_exception: self.fpu_exception,
            cpuid_level: self.cpuid_level,
            wp: self.wp,
            flags: string_views(self.flags@),
            vmx_flags: string_views(self.vmx_flags@),
            bugs: string_views(self.bugs@),
            bogomips: self.bogomips@,
            clflush_size: self.clflush_size,
            cache_alignment: self.cache_alignment,
            address_sizes: self.address_sizes@,
            power_management: self.power_management@,
        }
    }
}

/// A processor of which nothing is known yet.
pub open spec fn cpu_empty() -> CpuView {
    CpuView {
        processor: 0,
        vendor_id: Seq::empty(),
        cpu_family: 0,
        model: 0,
        model_name: Seq::empty(),
        stepping: 0,
        microcode: Seq::empty(),
        cpu_mhz: Seq::empty(),
        cpu_hz: 0,
        cache_size: 0,
        physical_id: 0,
        siblings: 0,
        core_id: 0,
        cpu_cores: 0,
        apicid: 0,
        initial_apicid: 0,
        fpu: false,
        fpu_exception: false,
        cpuid_level: 0,
        wp: false,
        flags: Seq::empty(),
        vmx_flags: Seq::empty(),
        bugs: Seq::empty(),
        bogomips: Seq::empty(),
        clflush_size: 0,
        cache_alignment: 0,
        address_sizes: Seq::empty(),
        power_management: Seq::empty(),
    }
}

/// The text with each space made `_`.
pub open spec fn spaces_to_underscores(s: Seq<char>) -> Seq<char> {
    Seq::new(s.len(), |i: int| if s[i] == ' ' { '_' } else { s[i] })
}

/// The processor after one `key: value` line of `/proc/cpuinfo`, the key
/// with its spaces made `_` and in lowercase: numbers read as `usize`
/// (zero when they are none, the processor's position for `processor`),
/// texts kept, `yes` flags, sizes in bytes, and flag lists cut at
/// whitespace. The clock speed is kept as text; other keys change nothing.
pub open spec fn cpu_set(c: CpuView, index: usize, key: Seq<char>, value: Seq<char>) -> CpuView {
    let k = lowercase(spaces_to_underscores(key));
    if k == "processor"@ {
        CpuView { processor: usize_or(value, index), ..c }
    } else if k == "vendor_id"@ {
        CpuView { vendor_id: value, ..c }
    } else if k == "cpu_family"@ {
        CpuView { cpu_family: usize_or(value, 0), ..c }
    } else if k == "model"@ {
        CpuView { model: usize_or(value, 0), ..c }
    } else if k == "model_name"@ {
        CpuView { model_name: value, ..c }
    } else if k == "stepping"@ {
        CpuView { stepping: usize_or(value, 0), ..c }
    } else if k == "microcode"@ {
        CpuView { microcode: value, ..c }
    } else if k == "cpu_mhz"@ {
        CpuView { cpu_mhz: value, ..c }
    } else if k == "cache_size"@ {
        CpuView { cache_size: size_or_zero(value) as usize, ..c }
    } else if k == "physical_id"@ {
        CpuView { physical_id: usize_or(value, 0), ..c }
    } else if k == "siblings"@ {
        CpuView { siblings: usize_or(value, 0), ..c }
    } else if k == "core_id"@ {
        CpuView { core_id: usize_or(value, 0), ..c }
    } else if k == "cpu_cores"@ {
        CpuView { cpu_cores: usize_or(value, 0), ..c }
    } else if k == "apicid"@ {
        CpuView { apicid: usize_or(value, 0), ..c }
    } else if k == "initial_apicid"@ {
        CpuView { initial_apicid: usize_or(value, 0), ..c }
    } else if k == "fpu"@ {
        CpuView { fpu: value == "yes"@, ..c }
    } else if k == "fpu_exception"@ {
        CpuView { fpu_exception: value == "yes"@, ..c }
    } else if k == "cpuid level"@ {
        CpuView { cpuid_level: usize_or(value, 0), ..c }
    } else if k == "wp"@ {
        CpuView { wp: value == "yes"@, ..c }
    } else if k == "flags"@ {
        CpuView { flags: split_ws(value), ..c }
    } else if k == "vmx_flags"@ {
        CpuView { vmx_flags: split_ws(value), ..c }
    } else if k == "bugs"@ {
        CpuView { bugs: split_ws(value), ..c }
    } else if k == "bogomips"@ {
        CpuView { bogomips: value, ..c }
    } else if k == "clflush_size"@ {
        CpuView { clflush_size: usize_or(value, 0), ..c }
    } else if k == "cache_alignment"@ {
        CpuView { cache_alignment: usize_or(value, 0), ..c }
    } else if k == "address_sizes"@ {
        CpuView { address_sizes: value, ..c }
    } else if k == "power_management"@ {
        CpuView { power_management: value, ..c }
    } else {
        c
    }
}

fn words_of(value: &[char]) -> (r: Vec<String>)
    ensures
        string_views(r@) == split_ws(value@),
{
    let words = split_whitespace(value);
    let r = strings_of(&words);
    assert(string_views(r@) =~= split_ws(value@));
    r
}

fn underscores(s: &[char]) -> (r: Vec<char>)
    ensures
        r@ == spaces_to_underscores(s@),
{
    let mut r: Vec<char> = Vec::new();
    let mut i: usize = 0;
    while i < s.len()
        invariant
            0 <= i <= s@.len(),
            r@ =~= spaces_to_underscores(s@).take(i as int),
        decreases s@.len() - i,
    {
        if s[i] == ' ' {
            r.push('_');
        } else {
            r.push(s[i]);
        }
        i = i + 1;
    }
    r
}

impl Cpu {
    /// A processor of which nothing is known yet.
    pub fn new() -> (r: Cpu)
        ensures
            r@ == cpu_empty(),
    {
        let r = Cpu {
            processor: 0,
            vendor_id: String::new(),
            cpu_family: 0,
            model: 0,
            model_name: String::new(),
            stepping: 0,
            microcode: String::new(),
            cpu_mhz: String::new(),
            cpu_hz: 0,
            cache_size: 0,
            physical_id: 0,
            siblings: 0,
            core_id: 0,
            cpu_cores: 0,
            apicid: 0,
            initial_apicid: 0,
            fpu: false,
            fpu_exception: false,
            cpuid_level: 0,
            wp: false,
            flags: Vec::new(),
            vmx_flags: Vec::new(),
            bugs: Vec::new(),
            bogomips: String::new(),
            clflush_size: 0,
            cache_alignment: 0,
            address_sizes: String::new(),
            power_management: String::new(),
        };
        assert(string_views(r.flags@) =~= Seq::<Seq<char>>::empty());
        assert(string_views(r.vmx_flags@) =~= Seq::<Seq<char>>::empty());
        assert(string_views(r.bugs@) =~= Seq::<Seq<char>>::empty());
        r
    }

    /// Takes one `key: value` line of `/proc/cpuinfo` for the processor at
    /// the given position.
    pub fn set_data(&mut self, index: usize, key: &[char], value: &[char])
        ensures
            final(self)@ == cpu_set(old(self)@, index, key@, value@),
    {
        let u = underscores(key);
        let k = to_lowercase(&u);
        if eq_str(&k, "processor") {
            self.processor = parse_usize_or(value, index);
        } else if eq_str(&k, "vendor_id") {
            self.vendor_id = string_of(value);
        } else if eq_str(&k, "cpu_family") {
            self.cpu_family = parse_usize_or(value, 0);
        } else if eq_str(&k, "model") {
            self.model = parse_usize_or(value, 0);
        } else if eq_str(&k, "model_name") {
            self.model_name = string_of(value);
        } else if eq_str(&k, "stepping") {
            self.stepping = parse_usize_or(value, 0);
        } else if eq_str(&k, "microcode") {
            self.microcode = string_of(value);
        } else if eq_str(&k, "cpu_mhz") {
            self.cpu_mhz = string_of(value);
        } else if eq_str(&k, "cache_size") {
            self.cache_size = match size_of_chars(value) {
                Some(b) => b as usize,
                None => 0,
            };
        } else if eq_str(&k, "physical_id") {
            self.physical_id = parse_usize_or(value, 0);
        } else if eq_str(&k, "siblings") {
            self.siblings = parse_usize_or(value, 0);
        } else if eq_str(&k, "core_id") {
            self.core_id = parse_usize_or(value, 0);
        } else if eq_str(&k, "cpu_cores") {
            self.cpu_cores = parse_usize_or(value, 0);
        } else if eq_str(&k, "apicid") {
            self.apicid = parse_usize_or(value, 0);
        } else if eq_str(&k, "initial_apicid") {
            self.initial_apicid = parse_usize_or(value, 0);
        } else if eq_str(&k, "fpu") {
            self.fpu = eq_str(value, "yes");
        } else if eq_str(&k, "fpu_exception") {
            self.fpu_exception = eq_str(value, "yes");
        } else if eq_str(&k, "cpuid level") {
            self.cpuid_level = parse_usize_or(value, 0);
        } else if eq_str(&k, "wp") {
            self.wp = eq_str(value, "yes");
        } else if eq_str(&k, "flags") {
            self.flags = words_of(value);
        } else if eq_str(&k, "vmx_flags") {
            self.vmx_flags = words_of(value);
        } else if eq_str(&k, "bugs") {
            self.bugs = words_of(value);
        } else if eq_str(&k, "bogomips") {
            self.bogomips = string_of(value);
        } else if eq_str(&k, "clflush_size") {
            self.clflush_size = parse_usize_or(value, 0);
        } else if eq_str(&k, "cache_alignment") {
            self.cache_alignment = parse_usize_or(value, 0);
        } else if eq_str(&k, "address_sizes") {
            self.address_sizes = string_of(value);
        } else if eq_str(&k, "power_management") {
            self.power_management = string_of(value);
        }
    }
}


/// The processors after one line of `/proc/cpuinfo`: a `processor` key
/// starts a new processor, and every `key: value` line goes to the last
/// processor, if there is one.
pub open spec fn cpuinfo_line(s: Seq<CpuView>, line: Seq<char>) -> Seq<CpuView> {
    match key_value(line, ':') {
        None => s,
        Some((k, v)) => {
            let s1 = if k == "processor"@ {
                s.push(cpu_empty())
            } else {
                s
            };
            if s1.len() > 0 {
                s1.update(s1.len() - 1, cpu_set(s1.last(), (s1.len() - 1) as usize, k, v))
            } else {
                s1
            }
        },
    }
}

/// The processors that the lines of `/proc/cpuinfo` describe.
pub open spec fn cpus_of_lines(lines: Seq<Seq<char>>) -> Seq<CpuView>
    decreases lines.len(),
{
    if lines.len() == 0 {
        Seq::empty()
    } else {
        cpuinfo_line(cpus_of_lines(lines.drop_last()), lines.last())
    }
}

/// The views of processors.
pub open spec fn cpu_views(v: Seq<Cpu>) -> Seq<CpuView> {
    Seq::new(v.len(), |i: int| v[i]@)
}

/// The sum of the clock rates.
pub open spec fn sum_hz(c: Seq<CpuView>) -> nat
    decreases c.len(),
{
    if c.len() == 0 {
        0
    } else {
        sum_hz(c.drop_last()) + c.last().cpu_hz as nat
    }
}

/// The (physical package, core) pair of each processor.
pub open spec fn core_pairs(c: Seq<CpuView>) -> Seq<(usize, usize)> {
    Seq::new(c.len(), |i: int| (c[i].physical_id, c[i].core_id))
}

/// `family-model` of a processor.
pub open spec fn family_text(c: CpuView) -> Seq<char> {
    dec(c.cpu_family as nat) + seq!['-'] + dec(c.model as nat)
}

/// The processors of the machine.
#[derive(Debug, Clone)]
pub struct CpuInfo {
    pub cpu: Vec<Cpu>,
}

impl View for CpuInfo {
    type V = Seq<CpuView>;

    open spec fn view(&self) -> Seq<CpuView> {
        cpu_views(self.cpu@)
    }
}

impl CpuInfo {
    /// No processors.
    pub fn new() -> (r: CpuInfo)
        ensures
            r@ == Seq::<CpuView>::empty(),
    {
        let r = CpuInfo { cpu: Vec::new() };
        assert(r@ =~= Seq::<CpuView>::empty());
        r
    }

    /// Takes one line of `/proc/cpuinfo`.
    pub fn read_line(&mut self, line: &str)
        ensures
            final(self)@ == cpuinfo_line(old(self)@, line@),
    {
        let cs = chars_of(line);
        if let Some((k, v)) = split_key_value(&cs, ':') {
            let ghost s0 = self@;
            if eq_str(&k, "processor") {
                self.cpu.push(Cpu::new());
                assert(self@ =~= s0.push(cpu_empty()));
            }
            let ghost s1 = self@;
            let n = self.cpu.len();
            if n > 0 {
                let mut c = self.cpu.pop().unwrap();
                c.set_data(n - 1, &k, &v);
                self.cpu.push(c);
                assert(self@ =~= s1.update(s1.len() - 1, cpu_set(s1.last(), (n - 1) as usize, k@, v@)));
            }
        }
    }

    /// The processors that the lines of `/proc/cpuinfo` describe. The clock
    /// rate of each is left at zero; its speed is kept as text.
    pub fn parse_lines(lines: &Vec<String>) -> (r: CpuInfo)
        ensures
            r@ == cpus_of_lines(string_views(lines@)),
    {
        let mut info = CpuInfo::new();
        let ghost ls = string_views(lines@);
        let mut i: usize = 0;
        while i < lines.len()
            invariant
                0 <= i <= lines@.len(),
                ls == string_views(lines@),
                info@ == cpus_of_lines(ls.take(i as int)),
            decreases lines@.len() - i,
        {
            assert(ls.take(i + 1).drop_last() =~= ls.take(i as int));
            info.read_line(lines[i].as_str());
            i = i + 1;
        }
        assert(ls.take(lines@.len() as int) =~= ls);
        info
    }

    /// The sum of the clock rates of the processors.
    pub fn total_hertz(&self) -> (r: usize)
        requires
            sum_hz(self@) <= usize::MAX,
        ensures
            r == sum_hz(self@),
    {
        let mut total: usize = 0;
        let mut i: usize = 0;
        while i < self.cpu.len()
            invariant
                0 <= i <= self.cpu@.len(),
                sum_hz(self@) <= usize::MAX,
                total == sum_hz(self@.take(i as int)),
            decreases self.cpu@.len() - i,
        {
            assert(self@.take(i + 1).drop_last() =~= self@.take(i as int));
            proof {
                lemma_sum_hz_prefix(self@, i + 1);
            }
            total = total + self.cpu[i].cpu_hz;
            i = i + 1;
        }
        assert(self@.take(self.cpu@.len() as int) =~= self@);
        total
    }

    /// The number of logical processors.
    pub fn logical_cores(&self) -> (r: usize)
        ensures
            r == self@.len(),
    {
        self.cpu.len()
    }

    /// The number of distinct (physical package, core) pairs.
    pub fn physical_cores(&self) -> (r: usize)
        ensures
            r == core_pairs(self@).to_set().len(),
    {
        let mut seen: Vec<(usize, usize)> = Vec::new();
        let mut i: usize = 0;
        while i < self.cpu.len()
            invariant
                0 <= i <= self.cpu@.len(),
                seen@.no_duplicates(),
                seen@.to_set() == core_pairs(self@.take(i as int)).to_set(),
            decreases self.cpu@.len() - i,
        {
            let p = (self.cpu[i].physical_id, self.cpu[i].core_id);
            let ghost before = core_pairs(self@.take(i as int));
            assert(core_pairs(self@.take(i + 1)) =~= before.push(p));
            let mut found = false;
            let mut j: usize = 0;
            while j < seen.len()
                invariant
                    0 <= j <= seen@.len(),
                    !found ==> forall|k: int| 0 <= k < j ==> seen@[k] != p,
                    found ==> seen@.contains(p),
                decreases seen@.len() - j,
            {
                if seen[j].0 == p.0 && seen[j].1 == p.1 {
                    found = true;
                }
                j = j + 1;
            }
            if !found {
                let ghost s0 = seen@;
                seen.push(p);
                proof {
                    crate::table::lemma_push_to_set(s0, p);
                }
            }
            proof {
                crate::table::lemma_push_to_set(before, p);
            }
            assert(seen@.to_set() =~= core_pairs(self@.take(i + 1)).to_set());
            i = i + 1;
        }
        assert(self@.take(self.cpu@.len() as int) =~= self@);
        proof {
            seen@.unique_seq_to_set();
        }
        seen.len()
    }

    /// The model name of the first processor.
    pub fn model(&self) -> (r: Option<String>)
        ensures
            match r {
                Some(m) => self@.len() > 0 && m@ == self@[0].model_name,
                None => self@.len() == 0,
            },
    {
        if self.cpu.len() > 0 {
            Some(self.cpu[0].model_name.clone())
        } else {
            None
        }
    }

    /// The model name of the first processor.
    pub fn model_name(&self) -> (r: Option<String>)
        ensures
            match r {
                Some(m) => self@.len() > 0 && m@ == self@[0].model_name,
                None => self@.len() == 0,
            },
    {
        self.model()
    }

    /// `family-model` of the first processor.
    pub fn model_id(&self) -> (r: Option<String>)
        ensures
            match r {
                Some(m) => self@.len() > 0 && m@ == family_text(self@[0]),
                None => self@.len() == 0,
            },
    {
        if self.cpu.len() > 0 {
            let mut t = fmt_u128(self.cpu[0].cpu_family as u128);
            t.push('-');
            let m = fmt_u128(self.cpu[0].model as u128);
            push_all(&mut t, &m);
            Some(string_of(&t))
        } else {
            None
        }
    }

    /// `family-model` of the first processor.
    pub fn family(&self) -> (r: Option<String>)
        ensures
            match r {
                Some(m) => self@.len() > 0 && m@ == family_text(self@[0]),
                None => self@.len() == 0,
            },
    {
        self.model_id()
    }

    /// The model name of the first processor with its runs of whitespace
    /// made single spaces and its ends trimmed.
    pub fn brand(&self) -> (r: Option<String>)
        ensures
            match r {
                Some(m) => self@.len() > 0 && m@ == crate::text::join_with(
                    split_ws(self@[0].model_name),
                    ' ',
                ),
                None => self@.len() == 0,
            },
    {
        if self.cpu.len() > 0 {
            let name = chars_of(self.cpu[0].model_name.as_str());
            let words = split_whitespace(&name);
            assert(words@.map_values(|p: Vec<char>| p@) =~= split_ws(name@));
            let t = crate::text::join_pieces(&words, ' ');
            Some(string_of(&t))
        } else {
            None
        }
    }
}

proof fn lemma_sum_hz_prefix(c: Seq<CpuView>, k: int)
    requires
        0 <= k <= c.len(),
    ensures
        sum_hz(c.take(k)) <= sum_hz(c),
    decreases c.len(),
{
    if k < c.len() {
        assert(c.take(k) =~= c.drop_last().take(k));
        lemma_sum_hz_prefix(c.drop_last(), k);
    } else {
        assert(c.take(k) =~= c);
    }
}

/// Time counters of one processor, or of all of them, from `/proc/stat`.
#[derive(Debug, Clone, Copy, PartialEq, Eq, Structural)]
pub struct CpuLoad {
    pub cpu: usize,
    pub total: u64,
    pub user: u64,
    pub nice: u64,
    pub system: u64,
    pub idle: u64,
    pub iowait: u64,
    pub irq: u64,
    pub softirq: u64,
}

/// `a.saturating_sub(b)` of unsigned counters.
pub open spec fn sat_sub(a: int, b: int) -> int {
    if a > b {
        a - b
    } else {
        0
    }
}

/// Counters that are all zero.
pub open spec fn load_zero() -> CpuLoad {
    CpuLoad {
        cpu: 0,
        total: 0,
        user: 0,
        nice: 0,
        system: 0,
        idle: 0,
        iowait: 0,
        irq: 0,
        softirq: 0,
    }
}

/// The numbers of a counter line, each read as a `u64` or zero.
pub open spec fn load_values(value: Seq<char>) -> Seq<u64> {
    let w = split_ws(value);
    Seq::new(w.len(), |i: int| crate::text::u64_or(w[i], 0))
}

/// The sum of numbers.
pub open spec fn sum_u64(s: Seq<u64>) -> nat
    decreases s.len(),
{
    if s.len() == 0 {
        0
    } else {
        sum_u64(s.drop_last()) + s.last() as nat
    }
}

/// A counter line can be taken without its total leaving `u64`: it has
/// fewer than seven numbers or their sum fits.
pub open spec fn load_fits(value: Seq<char>) -> bool {
    load_values(value).len() >= 7 ==> sum_u64(load_values(value)) <= u64::MAX
}

/// The counters after a counter line: with at least seven numbers, user,
/// nice, system, idle, iowait, irq and softirq are the first seven, the
/// total is the sum of all of them and the processor is the given index;
/// a shorter line changes nothing.
pub open spec fn load_set(c: CpuLoad, index: usize, value: Seq<char>) -> CpuLoad {
    let v = load_values(value);
    if v.len() >= 7 {
        CpuLoad {
            cpu: index,
            user: v[0],
            nice: v[1],
            system: v[2],
            idle: v[3],
            iowait: v[4],
            irq: v[5],
            softirq: v[6],
            total: sum_u64(v) as u64,
        }
    } else {
        c
    }
}

proof fn lemma_sum_u64_prefix(s: Seq<u64>, k: int)
    requires
        0 <= k <= s.len(),
    ensures
        sum_u64(s.take(k)) <= sum_u64(s),
    decreases s.len(),
{
    if k < s.len() {
        assert(s.take(k) =~= s.drop_last().take(k));
        lemma_sum_u64_prefix(s.drop_last(), k);
    } else {
        assert(s.take(k) =~= s);
    }
}

fn numbers_u64(value: &[char]) -> (r: Vec<u64>)
    ensures
        r@ == load_values(value@),
{
    let words = split_whitespace(value);
    let mut r: Vec<u64> = Vec::new();
    let mut i: usize = 0;
    while i < words.len()
        invariant
            0 <= i <= words@.len() == split_ws(value@).len(),
            forall|j: int| 0 <= j < words@.len() ==> #[trigger] words@[j]@ == split_ws(value@)[j],
            r@ =~= load_values(value@).take(i as int),
        decreases words@.len() - i,
    {
        r.push(crate::text::parse_u64_or(&words[i], 0));
        i = i + 1;
    }
    assert(r@ =~= load_values(value@));
    r
}

impl CpuLoad {
    /// The work done and the time passed since an earlier reading, in
    /// ticks: the growth of the total, and of the total less the growth of
    /// idle and waiting time; each growth is 0 where a counter went back.
    /// The usage in percent is their ratio times 100, 0 when no time passed.
    pub fn usage_deltas(&self, previous: &CpuLoad) -> (r: (u64, u64))
        requires
            sat_sub(self.idle as int, previous.idle as int) + sat_sub(self.iowait as int, previous.iowait as int)
                <= u64::MAX,
        ensures
            r.1 == sat_sub(self.total as int, previous.total as int),
            r.0 == sat_sub(
                r.1 as int,
                sat_sub(self.idle as int, previous.idle as int) + sat_sub(self.iowait as int, previous.iowait as int),
            ),
    {
        let total_delta = self.total.saturating_sub(previous.total);
        let idle_delta = self.idle.saturating_sub(previous.idle) + self.iowait.saturating_sub(previous.iowait);
        (total_delta.saturating_sub(idle_delta), total_delta)
    }

    /// Counters that are all zero.
    pub fn new() -> (r: CpuLoad)
        ensures
            r == load_zero(),
    {
        CpuLoad { cpu: 0, total: 0, user: 0, nice: 0, system: 0, idle: 0, iowait: 0, irq: 0, softirq: 0 }
    }

    /// Takes the numbers of a counter line for the processor at `index`.
    pub fn set_data(&mut self, index: usize, value: &[char])
        requires
            load_fits(value@),
        ensures
            *final(self) == load_set(*old(self), index, value@),
    {
        let v = numbers_u64(value);
        if v.len() >= 7 {
            let mut total: u64 = 0;
            let mut i: usize = 0;
            while i < v.len()
                invariant
                    0 <= i <= v@.len(),
                    v@ == load_values(value@),
                    v@.len() >= 7,
                    sum_u64(v@) <= u64::MAX,
                    total == sum_u64(v@.take(i as int)),
                decreases v@.len() - i,
            {
                assert(v@.take(i + 1).drop_last() =~= v@.take(i as int));
                proof {
                    lemma_sum_u64_prefix(v@, i + 1);
                }
                total = total + v[i];
                i = i + 1;
            }
            assert(v@.take(v@.len() as int) =~= v@);
            self.cpu = index;
            self.user = v[0];
            self.nice = v[1];
            self.system = v[2];
            self.idle = v[3];
            self.iowait = v[4];
            self.irq = v[5];
            self.softirq = v[6];
            self.total = total;
        }
    }
}

/// The processor number of a `cpuN` key: the number after `cpu`, or `-1`
/// when there is none.
pub open spec fn cpu_id(k: Seq<char>) -> int {
    match crate::text::parse_signed(k.skip(3), isize::MIN as int, isize::MAX as int) {
        Some(n) => n,
        None => -1,
    }
}

/// The counters of `/proc/stat` while its lines are read: the counters
/// of each processor are kept by processor number, in increasing order.
pub struct UsageModel {
    pub total: CpuLoad,
    pub cores: Seq<(usize, CpuLoad)>,
    pub ctxt: usize,
    pub btime: u64,
    pub processes: usize,
    pub procs_running: usize,
    pub procs_blocked: usize,
    pub softirq: Seq<usize>,
}

/// Before any line.
pub open spec fn usage_empty() -> UsageModel {
    UsageModel {
        total: load_zero(),
        cores: Seq::empty(),
        ctxt: 0,
        btime: 0,
        processes: 0,
        procs_running: 0,
        procs_blocked: 0,
        softirq: Seq::empty(),
    }
}

/// How many of the entries come before processor `id`.
pub open spec fn cores_before(s: Seq<(usize, CpuLoad)>, id: usize) -> nat
    decreases s.len(),
{
    if s.len() == 0 {
        0
    } else {
        cores_before(s.drop_last(), id) + if s.last().0 < id {
            1nat
        } else {
            0nat
        }
    }
}

/// Where processor `id` is among the entries, if it is.
pub open spec fn core_index(s: Seq<(usize, CpuLoad)>, id: usize) -> Option<int> {
    if exists|i: int| 0 <= i < s.len() && s[i].0 == id {
        Some(choose|i: int| 0 <= i < s.len() && s[i].0 == id)
    } else {
        None
    }
}

/// A counter line for processor `id`: its counters, new ones when there
/// were none (and then put in order), take the line; the index they get
/// is the number of processors seen before the line.
pub open spec fn cores_set(s: Seq<(usize, CpuLoad)>, id: usize, value: Seq<char>) -> Seq<
    (usize, CpuLoad),
> {
    match core_index(s, id) {
        Some(i) => s.update(i, (id, load_set(s[i].1, s.len() as usize, value))),
        None => s.insert(
            cores_before(s, id) as int,
            (id, load_set(load_zero(), s.len() as usize, value)),
        ),
    }
}

/// The line needs a sum of counters: its key is `cpu`, or `cpu` and a
/// processor number.
pub open spec fn counter_line(line: Seq<char>) -> bool {
    match key_value(line, ' ') {
        Some((k, v)) => k == "cpu"@ || (crate::text::has_prefix(k, "cpu"@) && cpu_id(k) >= 0),
        None => false,
    }
}

/// The value of a line cut at its first space.
pub open spec fn counter_value(line: Seq<char>) -> Seq<char> {
    match key_value(line, ' ') {
        Some((_, v)) => v,
        None => Seq::empty(),
    }
}

/// Every counter line can be taken without a total leaving `u64`.
pub open spec fn usage_lines_fit(lines: Seq<Seq<char>>) -> bool {
    forall|i: int|
        0 <= i < lines.len() && #[trigger] counter_line(lines[i]) ==> load_fits(
            counter_value(lines[i]),
        )
}

/// The counters after one line of `/proc/stat`, cut at its first space.
pub open spec fn usage_line(m: UsageModel, line: Seq<char>) -> UsageModel {
    match key_value(line, ' ') {
        None => m,
        Some((k, v)) => if k == "ctxt"@ {
            UsageModel { ctxt: usize_or(v, 0), ..m }
        } else if k == "btime"@ {
            UsageModel { btime: crate::text::u64_or(v, 0), ..m }
        } else if k == "processes"@ {
            UsageModel { processes: usize_or(v, 0), ..m }
        } else if k == "procs_running"@ {
            UsageModel { procs_running: usize_or(v, 0), ..m }
        } else if k == "procs_blocked"@ {
            UsageModel { procs_blocked: usize_or(v, 0), ..m }
        } else if k == "softirq"@ {
            UsageModel { softirq: crate::status::word_numbers(split_ws(v)), ..m }
        } else if k == "cpu"@ {
            UsageModel { total: load_set(m.total, 0, v), ..m }
        } else if crate::text::has_prefix(k, "cpu"@) && cpu_id(k) >= 0 {
            UsageModel { cores: cores_set(m.cores, cpu_id(k) as usize, v), ..m }
        } else {
            m
        },
    }
}

/// The counters that the lines of `/proc/stat` describe.
pub open spec fn usage_of_lines(lines: Seq<Seq<char>>) -> UsageModel
    decreases lines.len(),
{
    if lines.len() == 0 {
        usage_empty()
    } else {
        usage_line(usage_of_lines(lines.drop_last()), lines.last())
    }
}

/// Processor numbers strictly increase along the entries.
pub open spec fn cores_sorted(s: Seq<(usize, CpuLoad)>) -> bool {
    forall|i: int, j: int| 0 <= i < j < s.len() ==> s[i].0 < s[j].0
}

/// Processor time counters of the machine.
#[derive(Debug, Clone)]
pub struct CpuUsage {
    pub total: CpuLoad,
    pub cpu: Vec<CpuLoad>,
    pub ctxt: usize,
    pub btime: u64,
    pub processes: usize,
    pub procs_running: usize,
    pub procs_blocked: usize,
    pub softirq: Vec<usize>,
}

proof fn lemma_cores_before(s: Seq<(usize, CpuLoad)>, id: usize, k: int)
    requires
        cores_sorted(s),
        0 <= k <= s.len(),
        forall|i: int| 0 <= i < k ==> s[i].0 < id,
        forall|i: int| k <= i < s.len() ==> s[i].0 > id,
    ensures
        cores_before(s, id) == k,
    decreases s.len(),
{
    if s.len() > 0 {
        if k == s.len() {
            lemma_cores_before(s.drop_last(), id, k - 1);
        } else {
            lemma_cores_before(s.drop_last(), id, k);
        }
    }
}

/// Puts the counter line of processor `id` into the sorted entries.
fn put_core(cores: &mut Vec<(usize, CpuLoad)>, id: usize, value: &[char])
    requires
        cores_sorted(old(cores)@),
        load_fits(value@),
    ensures
        cores_sorted(final(cores)@),
        final(cores)@ == cores_set(old(cores)@, id, value@),
{
    let n = cores.len();
    let mut k: usize = 0;
    while k < n && cores[k].0 < id
        invariant
            0 <= k <= n == cores@.len(),
            forall|i: int| 0 <= i < k ==> cores@[i].0 < id,
        decreases n - k,
    {
        k = k + 1;
    }
    if k < n && cores[k].0 == id {
        let ghost s = cores@;
        assert(core_index(s, id) == Some(k as int)) by {
            let i = choose|i: int| 0 <= i < s.len() && s[i].0 == id;
            if i < k {
                assert(s[i].0 < id);
            }
            if i > k {
                assert(s[k as int].0 < s[i].0);
            }
        }
        let mut c = cores[k].1;
        c.set_data(n, value);
        cores.set(k, (id, c));
    } else {
        let ghost s = cores@;
        assert(core_index(s, id) is None) by {
            if exists|i: int| 0 <= i < s.len() && s[i].0 == id {
                let i = choose|i: int| 0 <= i < s.len() && s[i].0 == id;
                if i < k {
                    assert(s[i].0 < id);
                }
                if i >= k {
                    assert(s[k as int].0 <= s[i].0);
                }
            }
        }
        proof {
            assert forall|i: int| k <= i < s.len() implies s[i].0 > id by {
                assert(s[k as int].0 <= s[i].0);
            }
            lemma_cores_before(s, id, k as int);
        }
        let mut c = CpuLoad::new();
        c.set_data(n, value);
        cores.insert(k, (id, c));
    }
}

fn usize_words(value: &[char]) -> (r: Vec<usize>)
    ensures
        r@ == crate::status::word_numbers(split_ws(value@)),
{
    let words = split_whitespace(value);
    let mut r: Vec<usize> = Vec::new();
    let mut i: usize = 0;
    while i < words.len()
        invariant
            0 <= i <= words@.len() == split_ws(value@).len(),
            forall|j: int| 0 <= j < words@.len() ==> #[trigger] words@[j]@ == split_ws(value@)[j],
            r@ =~= crate::status::word_numbers(split_ws(value@)).take(i as int),
        decreases words@.len() - i,
    {
        r.push(parse_usize_or(&words[i], 0));
        i = i + 1;
    }
    assert(r@ =~= crate::status::word_numbers(split_ws(value@)));
    r
}

/// The counters of the entries, in order.
pub open spec fn core_loads(s: Seq<(usize, CpuLoad)>) -> Seq<CpuLoad> {
    Seq::new(s.len(), |i: int| s[i].1)
}

impl CpuUsage {
    /// Whether every counter line of `/proc/stat` can be taken without a
    /// total leaving `u64`.
    pub fn lines_fit(lines: &Vec<String>) -> (r: bool)
        ensures
            r == usage_lines_fit(string_views(lines@)),
    {
        let ghost ls = string_views(lines@);
        let mut i: usize = 0;
        while i < lines.len()
            invariant
                0 <= i <= lines@.len(),
                ls == string_views(lines@),
                forall|j: int|
                    0 <= j < i && #[trigger] counter_line(ls[j]) ==> load_fits(
                        counter_value(ls[j]),
                    ),
            decreases lines@.len() - i,
        {
            let cs = chars_of(lines[i].as_str());
            if let Some((k, v)) = split_key_value(&cs, ' ') {
                let is_counter = if eq_str(&k, "cpu") {
                    true
                } else {
                    let pre = chars_of("cpu");
                    if crate::text::starts_with(&k, &pre) {
                        proof {
                            reveal_strlit("cpu");
                        }
                        let rest = crate::text::slice_copy(&k, 3, k.len());
                        assert(rest@ =~= k@.skip(3));
                        match crate::text::parse_isize(&rest) {
                            Some(n) => n >= 0,
                            None => false,
                        }
                    } else {
                        false
                    }
                };
                if is_counter {
                    let vals = numbers_u64(&v);
                    if vals.len() >= 7 {
                        let mut total: u128 = 0;
                        let mut j: usize = 0;
                        let mut over = false;
                        while j < vals.len()
                            invariant
                                0 <= j <= vals@.len(),
                                !over ==> total == sum_u64(vals@.take(j as int)),
                                !over ==> total <= u64::MAX,
                                over ==> sum_u64(vals@.take(j as int)) > u64::MAX,
                            decreases vals@.len() - j,
                        {
                            assert(vals@.take(j + 1).drop_last() =~= vals@.take(j as int));
                            if !over {
                                total = total + vals[j] as u128;
                                if total > u64::MAX as u128 {
                                    over = true;
                                }
                            }
                            j = j + 1;
                        }
                        assert(vals@.take(vals@.len() as int) =~= vals@);
                        if over {
                            assert(counter_line(ls[i as int]));
                            return false;
                        }
                    }
                }
            }
            i = i + 1;
        }
        true
    }

    /// The counters that the lines of `/proc/stat` describe; the counters
    /// of the processors come out ordered by processor number.
    pub fn parse_lines(lines: &Vec<String>) -> (r: CpuUsage)
        requires
            usage_lines_fit(string_views(lines@)),
        ensures
            r.total == usage_of_lines(string_views(lines@)).total,
            r.cpu@ == core_loads(usage_of_lines(string_views(lines@)).cores),
            cores_sorted(usage_of_lines(string_views(lines@)).cores),
            r.ctxt == usage_of_lines(string_views(lines@)).ctxt,
            r.btime == usage_of_lines(string_views(lines@)).btime,
            r.processes == usage_of_lines(string_views(lines@)).processes,
            r.procs_running == usage_of_lines(string_views(lines@)).procs_running,
            r.procs_blocked == usage_of_lines(string_views(lines@)).procs_blocked,
            r.softirq@ == usage_of_lines(string_views(lines@)).softirq,
    {
        let ghost ls = string_views(lines@);
        let mut total = CpuLoad::new();
        let mut cores: Vec<(usize, CpuLoad)> = Vec::new();
        let mut ctxt: usize = 0;
        let mut btime: u64 = 0;
        let mut processes: usize = 0;
        let mut procs_running: usize = 0;
        let mut procs_blocked: usize = 0;
        let mut softirq: Vec<usize> = Vec::new();
        let mut i: usize = 0;
        while i < lines.len()
            invariant
                0 <= i <= lines@.len(),
                ls == string_views(lines@),
                usage_lines_fit(ls),
                cores_sorted(cores@),
                usage_of_lines(ls.take(i as int)) == (UsageModel {
                    total,
                    cores: cores@,
                    ctxt,
                    btime,
                    processes,
                    procs_running,
                    procs_blocked,
                    softirq: softirq@,
                }),
            decreases lines@.len() - i,
        {
            assert(ls.take(i + 1).drop_last() =~= ls.take(i as int));
            assert(ls[i as int] == lines@[i as int]@);
            let cs = chars_of(lines[i].as_str());
            if let Some((k, v)) = split_key_value(&cs, ' ') {
                if eq_str(&k, "ctxt") {
                    ctxt = parse_usize_or(&v, 0);
                } else if eq_str(&k, "btime") {
                    btime = crate::text::parse_u64_or(&v, 0);
                } else if eq_str(&k, "processes") {
                    processes = parse_usize_or(&v, 0);
                } else if eq_str(&k, "procs_running") {
                    procs_running = parse_usize_or(&v, 0);
                } else if eq_str(&k, "procs_blocked") {
                    procs_blocked = parse_usize_or(&v, 0);
                } else if eq_str(&k, "softirq") {
                    softirq = usize_words(&v);
                } else if eq_str(&k, "cpu") {
                    assert(counter_line(ls[i as int]));
                    total.set_data(0, &v);
                } else {
                    let pre = chars_of("cpu");
                    if crate::text::starts_with(&k, &pre) {
                        proof {
                            reveal_strlit("cpu");
                        }
                        let rest = crate::text::slice_copy(&k, 3, k.len());
                        assert(rest@ =~= k@.skip(3));
                        let id: isize = match crate::text::parse_isize(&rest) {
                            Some(n) => n,
                            None => -1,
                        };
                        if id >= 0 {
                            assert(counter_line(ls[i as int]));
                            put_core(&mut cores, id as usize, &v);
                        }
                    }
                }
            }
            i = i + 1;
        }
        assert(ls.take(lines@.len() as int) =~= ls);
        let mut loads: Vec<CpuLoad> = Vec::new();
        let mut j: usize = 0;
        while j < cores.len()
            invariant
                0 <= j <= cores@.len(),
                loads@ =~= core_loads(cores@).take(j as int),
            decreases cores@.len() - j,
        {
            loads.push(cores[j].1);
            j = j + 1;
        }
        CpuUsage { total, cpu: loads, ctxt, btime, processes, procs_running, procs_blocked, softirq }
    }
}

/// What `CpuInfo::physical_cores` counts: a (package, core) pair is counted
/// exactly when some processor sits in that package on that core; so two
/// processors on cores with the same id in different packages count as two
/// cores, and processors that share both package and core count as one.
pub proof fn lemma_physical_cores_counted(c: Seq<CpuView>, i: int, j: int)
    requires
        0 <= i < c.len(),
        0 <= j < c.len(),
    ensures
        forall|p: (usize, usize)|
            #[trigger] core_pairs(c).to_set().contains(p) <==> exists|k: int|
                0 <= k < c.len() && c[k].physical_id == p.0 && c[k].core_id == p.1,
        core_pairs(c).to_set().finite(),
        1 <= core_pairs(c).to_set().len() <= c.len(),
        (c[i].physical_id != c[j].physical_id || c[i].core_id != c[j].core_id) ==> core_pairs(c).to_set().len()
            >= 2,
{
    let s = core_pairs(c);
    let t = s.to_set();
    assert forall|p: (usize, usize)| #[trigger] t.contains(p) <==> exists|k: int|
        0 <= k < c.len() && c[k].physical_id == p.0 && c[k].core_id == p.1 by {
        if t.contains(p) {
            assert(s.contains(p));
            let k = choose|k: int| 0 <= k < s.len() && s[k] == p;
            assert(c[k].physical_id == p.0 && c[k].core_id == p.1);
        }
        if exists|k: int| 0 <= k < c.len() && c[k].physical_id == p.0 && c[k].core_id == p.1 {
            let k = choose|k: int| 0 <= k < c.len() && c[k].physical_id == p.0 && c[k].core_id == p.1;
            assert(s[k] == p);
        }
    }
    s.lemma_cardinality_of_set();
    let a = s[i];
    let b = s[j];
    assert(t.contains(a));
    assert(t.contains(b));
    assert(Set::<(usize, usize)>::empty().insert(a).subset_of(t));
    vstd::set_lib::lemma_len_subset(Set::<(usize, usize)>::empty().insert(a), t);
    if a != b {
        let two = Set::<(usize, usize)>::empty().insert(a).insert(b);
        assert(two.subset_of(t));
        vstd::set_lib::lemma_len_subset(two, t);
        assert(two.len() == 2);
    }
}

} // verus!
