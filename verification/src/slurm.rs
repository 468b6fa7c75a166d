//! Batch-script generation for the Slurm workload manager.
//!
//! The script text is a fixed template around the configuration's values;
//! the contract states the generated text exactly, as the concatenation of
//! the template segments with the configuration rendered into them.

use vstd::prelude::*;

use crate::collector::{is_space_char, lemma_trailing_spaces_char, spec_is_space, spec_trailing_spaces};
use crate::fx::iabs;
use crate::text::{digit_char, lower_char, spec_digit_char, spec_digits, spec_lower_char, u64_to_string};

verus! {

/// A batch job's settings.
pub struct SlurmConfig {
    pub job_name: String,
    pub partition: String,
    pub constraint: String,
    pub nodes: u32,
    pub ntasks: u32,
    pub cpus_per_task: u32,
    pub mem_per_cpu: String,
    pub time_limit: String,
    pub modules: Vec<String>,
}

impl Default for SlurmConfig {
    /// The stock configuration: one node, thirty-two tasks of one
    /// processor each, a day of wall time.
    fn default() -> (r: SlurmConfig)
        ensures
            r.job_name@ == "job"@,
            r.partition@ == "arm"@,
            r.constraint@ == "neoverse_v2"@,
            r.nodes == 1u32,
            r.ntasks == 32u32,
            r.cpus_per_task == 1u32,
            r.mem_per_cpu@ == "3G"@,
            r.time_limit@ == "24:00:00"@,
            r.modules@.len() == 0,
    {
        SlurmConfig {
            job_name: String::from_str("job"),
            partition: String::from_str("arm"),
            constraint: String::from_str("neoverse_v2"),
            nodes: 1,
            ntasks: 32,
            cpus_per_task: 1,
            mem_per_cpu: String::from_str("3G"),
            time_limit: String::from_str("24:00:00"),
            modules: Vec::new(),
        }
    }
}

/// The `module load` lines for a list of module names, newline separated.
pub open spec fn spec_module_lines(ms: Seq<Seq<char>>) -> Seq<char>
    decreases ms.len(),
{
    if ms.len() == 0 {
        Seq::empty()
    } else if ms.len() == 1 {
        "module load "@ + ms[0]
    } else {
        spec_module_lines(ms.drop_last()) + "\n"@ + "module load "@ + ms.last()
    }
}

/// Build the `module load` lines.
fn module_lines(mods: &Vec<String>) -> (r: String)
    ensures
        r@ == spec_module_lines(mods.deep_view()),
{
    let mut s: String = String::new();
    let mut i: usize = 0;
    proof {
        assert(mods.deep_view().subrange(0, 0) =~= Seq::<Seq<char>>::empty());
        assert(s@ =~= spec_module_lines(mods.deep_view().subrange(0, 0)));
    }
    while i < mods.len()
        invariant
            i <= mods@.len(),
            mods.deep_view().len() == mods@.len(),
            s@ == spec_module_lines(mods.deep_view().subrange(0, i as int)),
        decreases mods@.len() - i,
    {
        if i > 0 {
            s.append("\n");
        }
        s.append("module load ");
        s.append(mods[i].as_str());
        proof {
            let dv = mods.deep_view();
            assert(dv[i as int] == mods@[i as int]@);
            assert(dv.subrange(0, i + 1 as int).drop_last() =~= dv.subrange(0, i as int));
            assert(dv.subrange(0, i + 1 as int).last() == dv[i as int]);
            assert(s@ =~= spec_module_lines(dv.subrange(0, i + 1 as int)));
        }
        i = i + 1;
    }
    proof {
        assert(mods.deep_view().subrange(0, mods.deep_view().len() as int) =~= mods.deep_view());
    }
    s
}

/// The full script text for a configuration, working directory and
/// command.
pub open spec fn spec_sbatch_script(cfg: SlurmConfig, workdir: Seq<char>, cmd: Seq<char>) -> Seq<
    char,
> {
    "#!/bin/bash\n#SBATCH --constraint \""@ + cfg.constraint@ + "\"\n#SBATCH --partition "@
        + cfg.partition@ + "\n#SBATCH --switches=1\n#SBATCH --nodes="@ + spec_digits(
        cfg.nodes as int,
    ) + "\n#SBATCH --mem-per-cpu "@ + cfg.mem_per_cpu@ + "\n#SBATCH --time "@ + cfg.time_limit@
        + "\n#SBATCH -c "@ + spec_digits(cfg.cpus_per_task as int) + "\n#SBATCH -n "@
        + spec_digits(cfg.ntasks as int) + "\n#SBATCH -J "@ + cfg.job_name@
        + "\n#SBATCH -o slurm_logs/%x.out\n#SBATCH -e slurm_logs/%x.err\n\nset -euo pipefail\n\nexport MODULEPATH=\"/home/changjiangwu_umass_edu/Modulefiles:$MODULEPATH\"\nmodule purge 2>&1\n"@
        + spec_module_lines(cfg.modules.deep_view()) + "\necho \"Loaded modules\"\n\ncd \""@
        + workdir + "\"\necho \"PWD=$(pwd)\"\necho \"Running: "@ + cmd + "\"\n"@ + cmd
        + "\n\necho \"Timings:\"\nsacct -o JobID,Submit,Start,End,CPUTime,State -j $SLURM_JOBID\necho \"Resources:\"\nsacct -o JobID,JobName,Partition,ReqMem,MaxRSS,MaxVMSize -j $SLURM_JOBID\n"@
}

/// Generate the batch script for a configuration, a working directory and
/// the command to run.
pub fn generate_sbatch_script(config: &SlurmConfig, workdir: &str, exec_cmd: &str) -> (r: String)
    ensures
        r@ == spec_sbatch_script(*config, workdir@, exec_cmd@),
{
    let loads: String = module_lines(&config.modules);
    let mut s: String = String::new();
    s.append("#!/bin/bash\n#SBATCH --constraint \"");
    s.append(config.constraint.as_str());
    s.append("\"\n#SBATCH --partition ");
    s.append(config.partition.as_str());
    s.append("\n#SBATCH --switches=1\n#SBATCH --nodes=");
    s.append(u64_to_string(config.nodes as u64).as_str());
    s.append("\n#SBATCH --mem-per-cpu ");
    s.append(config.mem_per_cpu.as_str());
    s.append("\n#SBATCH --time ");
    s.append(config.time_limit.as_str());
    s.append("\n#SBATCH -c ");
    s.append(u64_to_string(config.cpus_per_task as u64).as_str());
    s.append("\n#SBATCH -n ");
    s.append(u64_to_string(config.ntasks as u64).as_str());
    s.append("\n#SBATCH -J ");
    s.append(config.job_name.as_str());
    s.append(
        "\n#SBATCH -o slurm_logs/%x.out\n#SBATCH -e slurm_logs/%x.err\n\nset -euo pipefail\n\nexport MODULEPATH=\"/home/changjiangwu_umass_edu/Modulefiles:$MODULEPATH\"\nmodule purge 2>&1\n",
    );
    s.append(loads.as_str());
    s.append("\necho \"Loaded modules\"\n\ncd \"");
    s.append(workdir);
    s.append("\"\necho \"PWD=$(pwd)\"\necho \"Running: ");
    s.append(exec_cmd);
    s.append("\"\n");
    s.append(exec_cmd);
    s.append(
        "\n\necho \"Timings:\"\nsacct -o JobID,Submit,Start,End,CPUTime,State -j $SLURM_JOBID\necho \"Resources:\"\nsacct -o JobID,JobName,Partition,ReqMem,MaxRSS,MaxVMSize -j $SLURM_JOBID\n",
    );
    proof {
        assert(s@ =~= spec_sbatch_script(*config, workdir@, exec_cmd@));
    }
    s
}

/// Whether the characters of `pat` occur at position `i` of `t`, compared
/// without regard to ASCII case.
pub open spec fn spec_ci_at(t: Seq<char>, i: int, pat: Seq<char>) -> bool {
    0 <= i && i + pat.len() <= t.len() && forall|k: int|
        0 <= k < pat.len() ==> spec_lower_char(t[i + k]) == spec_lower_char(pat[k])
}

/// The first position at or past `j` that does not hold whitespace, or the
/// length.
pub open spec fn spec_ws_end(t: Seq<char>, j: int) -> int
    decreases t.len() - j,
{
    if j < 0 || j >= t.len() {
        t.len() as int
    } else if spec_is_space(t[j]) {
        spec_ws_end(t, j + 1)
    } else {
        j
    }
}

/// Where a pressure-block opening ends, if one begins at `i`: the marker
/// `%BLOCK`, at least one whitespace character, then `EXTERNAL_PRESSURE`,
/// case-insensitively.
pub open spec fn spec_head_end(t: Seq<char>, i: int) -> Option<int> {
    let b = "%BLOCK"@;
    let nm = "EXTERNAL_PRESSURE"@;
    if spec_ci_at(t, i, b) {
        let w = spec_ws_end(t, i + b.len());
        if w > i + b.len() && spec_ci_at(t, w, nm) {
            Some(w + nm.len() as int)
        } else {
            None
        }
    } else {
        None
    }
}

/// Where a pressure-block closing ends, if one begins at `j`: the marker
/// `%ENDBLOCK`, whitespace, `EXTERNAL_PRESSURE`, then any following run of
/// whitespace.
pub open spec fn spec_marker_end(t: Seq<char>, j: int) -> Option<int> {
    let eb = "%ENDBLOCK"@;
    let nm = "EXTERNAL_PRESSURE"@;
    if spec_ci_at(t, j, eb) {
        let w = spec_ws_end(t, j + eb.len());
        if w > j + eb.len() && spec_ci_at(t, w, nm) {
            Some(spec_ws_end(t, w + nm.len()))
        } else {
            None
        }
    } else {
        None
    }
}

/// The end of the first closing marker at or past `j`, if any.
pub open spec fn spec_find_marker(t: Seq<char>, j: int) -> Option<int>
    decreases t.len() - j,
{
    if j < 0 || j >= t.len() {
        None
    } else {
        match spec_marker_end(t, j) {
            Some(e) => Some(e),
            None => spec_find_marker(t, j + 1),
        }
    }
}

/// The span of the first whole pressure block at or past `i`: an opening,
/// the shortest stretch to a closing marker, and the closing's trailing
/// whitespace.
pub open spec fn spec_find_block(t: Seq<char>, i: int) -> Option<(int, int)>
    decreases t.len() - i,
{
    if i < 0 || i >= t.len() {
        None
    } else {
        match spec_head_end(t, i) {
            Some(h) => match spec_find_marker(t, h) {
                Some(e) => Some((i, e)),
                None => spec_find_block(t, i + 1),
            },
            None => spec_find_block(t, i + 1),
        }
    }
}

/// The text with every whole pressure block removed, scanning left to
/// right and continuing after each removed span.
pub open spec fn spec_strip_pressure_blocks(t: Seq<char>) -> Seq<char>
    decreases t.len(),
{
    match spec_find_block(t, 0) {
        None => t,
        Some(span) => if 0 <= span.0 && span.0 < span.1 && span.1 <= t.len() {
            t.subrange(0, span.0) + spec_strip_pressure_blocks(
                t.subrange(span.1, t.len() as int),
            )
        } else {
            t
        },
    }
}

/// Case-insensitive comparison of two characters.
fn lower_eq(a: char, b: char) -> (r: bool)
    ensures
        r == (spec_lower_char(a) == spec_lower_char(b)),
{
    lower_char(a) == lower_char(b)
}

/// Whether `pat` occurs at position `i`, without regard to ASCII case.
fn ci_at(v: &Vec<char>, i: usize, pat: &str) -> (r: bool)
    ensures
        r == spec_ci_at(v@, i as int, pat@),
{
    let n: usize = pat.unicode_len();
    if i > v.len() || n > v.len() - i {
        return false;
    }
    let mut k: usize = 0;
    while k < n
        invariant
            k <= n,
            n == pat@.len(),
            i + n <= v@.len(),
            v@.len() <= usize::MAX,
            forall|t: int| 0 <= t < k ==> spec_lower_char(v@[i + t]) == spec_lower_char(pat@[t]),
        decreases n - k,
    {
        if !lower_eq(v[i + k], pat.get_char(k)) {
            assert(!(spec_lower_char(v@[i + k]) == spec_lower_char(pat@[k as int])));
            return false;
        }
        k = k + 1;
    }
    true
}

/// The first non-whitespace position at or past `j`.
fn ws_end(v: &Vec<char>, j: usize) -> (r: usize)
    requires
        j <= v@.len(),
    ensures
        r as int == spec_ws_end(v@, j as int),
        j <= r <= v@.len(),
{
    let mut i: usize = j;
    while i < v.len()
        invariant
            j <= i <= v@.len(),
            spec_ws_end(v@, j as int) == spec_ws_end(v@, i as int),
        decreases v@.len() - i,
    {
        if !is_space_char(v[i]) {
            return i;
        }
        i = i + 1;
    }
    i
}

/// The end of an opening that begins at `i`, if one does.
fn head_end(v: &Vec<char>, i: usize) -> (r: Option<usize>)
    ensures
        r is None ==> spec_head_end(v@, i as int) is None,
        r matches Some(h) ==> spec_head_end(v@, i as int) == Some(h as int) && i < h <= v@.len(),
{
    if !ci_at(v, i, "%BLOCK") {
        return None;
    }
    let vl: usize = v.len();
    let bl: usize = "%BLOCK".unicode_len();
    assert(i + bl <= vl);
    let w: usize = ws_end(v, i + bl);
    if w == i + bl {
        return None;
    }
    if !ci_at(v, w, "EXTERNAL_PRESSURE") {
        return None;
    }
    let nl: usize = "EXTERNAL_PRESSURE".unicode_len();
    assert(w + nl <= vl);
    Some(w + nl)
}

/// The end of a closing marker that begins at `j`, if one does.
fn marker_end(v: &Vec<char>, j: usize) -> (r: Option<usize>)
    ensures
        r is None ==> spec_marker_end(v@, j as int) is None,
        r matches Some(e) ==> spec_marker_end(v@, j as int) == Some(e as int) && j < e <= v@.len(),
{
    if !ci_at(v, j, "%ENDBLOCK") {
        return None;
    }
    let vl: usize = v.len();
    let el: usize = "%ENDBLOCK".unicode_len();
    assert(j + el <= vl);
    let w: usize = ws_end(v, j + el);
    if w == j + el {
        return None;
    }
    if !ci_at(v, w, "EXTERNAL_PRESSURE") {
        return None;
    }
    let nl: usize = "EXTERNAL_PRESSURE".unicode_len();
    assert(w + nl <= vl);
    Some(ws_end(v, w + nl))
}

/// The end of the first closing marker at or past `j`, if any.
fn find_marker(v: &Vec<char>, j: usize) -> (r: Option<usize>)
    requires
        j <= v@.len(),
    ensures
        r is None ==> spec_find_marker(v@, j as int) is None,
        r matches Some(e) ==> spec_find_marker(v@, j as int) == Some(e as int) && j < e <= v@.len(),
{
    let mut p: usize = j;
    while p < v.len()
        invariant
            j <= p <= v@.len(),
            spec_find_marker(v@, j as int) == spec_find_marker(v@, p as int),
        decreases v@.len() - p,
    {
        match marker_end(v, p) {
            Some(e) => {
                return Some(e);
            },
            None => {},
        }
        p = p + 1;
    }
    None
}

/// The span of the first whole pressure block, if any.
fn find_block(v: &Vec<char>) -> (r: Option<(usize, usize)>)
    ensures
        r is None ==> spec_find_block(v@, 0) is None,
        r matches Some(sp) ==> spec_find_block(v@, 0) == Some((sp.0 as int, sp.1 as int))
            && sp.0 < sp.1 <= v@.len(),
{
    let mut i: usize = 0;
    while i < v.len()
        invariant
            i <= v@.len(),
            spec_find_block(v@, 0) == spec_find_block(v@, i as int),
        decreases v@.len() - i,
    {
        match head_end(v, i) {
            Some(h) => {
                match find_marker(v, h) {
                    Some(e) => {
                        return Some((i, e));
                    },
                    None => {},
                }
            },
            None => {},
        }
        i = i + 1;
    }
    None
}

/// Remove every whole pressure block from the text.
fn strip_pressure_blocks(v: Vec<char>) -> (r: Vec<char>)
    ensures
        r@ == spec_strip_pressure_blocks(v@),
    decreases v@.len(),
{
    match find_block(&v) {
        None => v,
        Some((a, e)) => {
            let mut out: Vec<char> = Vec::new();
            let mut i: usize = 0;
            while i < a
                invariant
                    i <= a,
                    a <= v@.len(),
                    out@ == v@.subrange(0, i as int),
                decreases a - i,
            {
                out.push(v[i]);
                proof {
                    assert(out@ =~= v@.subrange(0, i + 1 as int));
                }
                i = i + 1;
            }
            let mut rest: Vec<char> = Vec::new();
            let mut k: usize = e;
            while k < v.len()
                invariant
                    e <= k <= v@.len(),
                    rest@ == v@.subrange(e as int, k as int),
                decreases v@.len() - k,
            {
                rest.push(v[k]);
                proof {
                    assert(rest@ =~= v@.subrange(e as int, k + 1 as int));
                }
                k = k + 1;
            }
            proof {
                assert(rest@ =~= v@.subrange(e as int, v@.len() as int));
            }
            let tail: Vec<char> = strip_pressure_blocks(rest);
            let mut j: usize = 0;
            while j < tail.len()
                invariant
                    j <= tail@.len(),
                    out@ == v@.subrange(0, a as int) + tail@.subrange(0, j as int),
                decreases tail@.len() - j,
            {
                out.push(tail[j]);
                proof {
                    assert(out@ =~= v@.subrange(0, a as int) + tail@.subrange(0, j + 1 as int));
                }
                j = j + 1;
            }
            proof {
                assert(tail@.subrange(0, tail@.len() as int) =~= tail@);
                assert(out@ =~= spec_strip_pressure_blocks(v@));
            }
            out
        },
    }
}

/// Six-digit sequences with their trailing zeros removed.
pub open spec fn spec_trim_zeros(s: Seq<char>) -> Seq<char>
    decreases s.len(),
{
    if s.len() == 0 {
        s
    } else if s.last() == '0' {
        spec_trim_zeros(s.drop_last())
    } else {
        s
    }
}

proof fn lemma_trim_zeros_prefix(s: Seq<char>, l: int)
    requires
        0 <= l <= s.len(),
        forall|k: int| l <= k < s.len() ==> s[k] == '0',
        l == 0 || s[l - 1] != '0',
    ensures
        spec_trim_zeros(s) =~= s.subrange(0, l),
    decreases s.len(),
{
    if s.len() == 0 {
    } else if s.last() == '0' {
        assert(l < s.len());
        assert(forall|k: int| l <= k < s.drop_last().len() ==> s.drop_last()[k] == '0');
        lemma_trim_zeros_prefix(s.drop_last(), l);
        assert(s.drop_last().subrange(0, l) =~= s.subrange(0, l));
    } else {
        assert(l == s.len());
        assert(spec_trim_zeros(s) =~= s.subrange(0, l));
    }
}

/// The fractional digits of a micro value `0 < f < 1e6`: six decimal
/// places with trailing zeros removed.
pub open spec fn spec_frac6(f: int) -> Seq<char> {
    spec_trim_zeros(
        seq![
            spec_digit_char(f / 100_000),
            spec_digit_char((f / 10_000) % 10),
            spec_digit_char((f / 1_000) % 10),
            spec_digit_char((f / 100) % 10),
            spec_digit_char((f / 10) % 10),
            spec_digit_char(f % 10),
        ],
    )
}

/// A micro value rendered as a plain decimal: an optional minus sign, the
/// whole part, and up to six fractional digits with trailing zeros
/// omitted.
pub open spec fn spec_micro_decimal(p: i64) -> Seq<char> {
    let m = iabs(p as int);
    let sign: Seq<char> = if p < 0 {
        seq!['-']
    } else {
        Seq::<char>::empty()
    };
    if m % 1_000_000 == 0 {
        sign + spec_digits(m / 1_000_000)
    } else {
        sign + spec_digits(m / 1_000_000) + seq!['.'] + spec_frac6(m % 1_000_000)
    }
}

/// Render a micro value as a plain decimal string.
fn micro_decimal(p: i64) -> (r: String)
    ensures
        r@ == spec_micro_decimal(p),
{
    let mag: u64 = if p >= 0 {
        p as u64
    } else {
        (-(p as i128)) as u64
    };
    proof {
        assert(mag as int == iabs(p as int));
    }
    let ip: String = u64_to_string(mag / 1_000_000);
    let f: u64 = mag % 1_000_000;
    let mut out: String = String::new();
    if p < 0 {
        out.push('-');
    }
    out.append(ip.as_str());
    if f != 0 {
        out.push('.');
        let ghost base = out@;
        proof {
            vstd::arithmetic::div_mod::lemma_multiply_divide_lt(f as int, 100_000, 10);
        }
        let mut six: Vec<char> = Vec::new();
        six.push(digit_char(f / 100_000));
        six.push(digit_char((f / 10_000) % 10));
        six.push(digit_char((f / 1_000) % 10));
        six.push(digit_char((f / 100) % 10));
        six.push(digit_char((f / 10) % 10));
        six.push(digit_char(f % 10));
        proof {
            assert(six@ =~= seq![
                spec_digit_char(f as int / 100_000),
                spec_digit_char((f as int / 10_000) % 10),
                spec_digit_char((f as int / 1_000) % 10),
                spec_digit_char((f as int / 100) % 10),
                spec_digit_char((f as int / 10) % 10),
                spec_digit_char(f as int % 10),
            ]);
        }
        let mut last: usize = 6;
        while last > 0 && six[last - 1] == '0'
            invariant
                last <= 6,
                six@.len() == 6,
                forall|k: int| last <= k < 6 ==> six@[k] == '0',
            decreases last,
        {
            last = last - 1;
        }
        proof {
            lemma_trim_zeros_prefix(six@, last as int);
        }
        let mut k: usize = 0;
        while k < last
            invariant
                k <= last <= 6,
                six@.len() == 6,
                out@ == base + six@.subrange(0, k as int),
            decreases last - k,
        {
            out.push(six[k]);
            proof {
                assert(out@ =~= base + six@.subrange(0, k + 1 as int));
            }
            k = k + 1;
        }
        proof {
            assert(out@ =~= spec_micro_decimal(p));
        }
    } else {
        proof {
            assert(out@ =~= spec_micro_decimal(p));
        }
    }
    out
}

/// The replacement block for a pressure, in the cell-file syntax.
pub open spec fn spec_pressure_block(p: i64) -> Seq<char> {
    let d = spec_micro_decimal(p);
    "%BLOCK EXTERNAL_PRESSURE\nGPa\n"@ + d + " 0 0\n"@ + d + " 0\n"@ + d
        + "\n%ENDBLOCK EXTERNAL_PRESSURE\n"@
}

/// The text with every pressure block removed, trailing whitespace
/// stripped, and a fresh block for the given pressure appended after a
/// blank line.
pub open spec fn spec_upsert_pressure(t: Seq<char>, p: i64) -> Seq<char> {
    let stripped = spec_strip_pressure_blocks(t);
    stripped.subrange(0, stripped.len() - spec_trailing_spaces(stripped)) + "\n\n"@
        + spec_pressure_block(p) + "\n"@
}

/// Insert or replace the external-pressure block of a cell file: existing
/// blocks are removed wherever they stand, the text's trailing whitespace
/// is trimmed, and a block carrying the given pressure (micro-gigapascals,
/// rendered as a plain decimal) is appended. Markers are matched without
/// regard to ASCII case; whitespace here means space, tab, carriage return
/// and line feed.
pub fn upsert_external_pressure_block(cell_text: &str, p_gpa: i64) -> (r: String)
    ensures
        r@ == spec_upsert_pressure(cell_text@, p_gpa),
{
    let len: usize = cell_text.unicode_len();
    let mut chars: Vec<char> = Vec::new();
    let mut i: usize = 0;
    while i < len
        invariant
            i <= len,
            len == cell_text@.len(),
            chars@ == cell_text@.subrange(0, i as int),
        decreases len - i,
    {
        chars.push(cell_text.get_char(i));
        proof {
            assert(chars@ =~= cell_text@.subrange(0, i + 1 as int));
        }
        i = i + 1;
    }
    proof {
        assert(chars@ =~= cell_text@);
    }
    let stripped: Vec<char> = strip_pressure_blocks(chars);
    let n: usize = stripped.len();
    let mut hi: usize = n;
    while hi > 0 && is_space_char(stripped[hi - 1])
        invariant
            hi <= n,
            n == stripped@.len(),
            forall|k: int| hi <= k < n ==> spec_is_space(stripped@[k]),
        decreases hi,
    {
        hi = hi - 1;
    }
    proof {
        lemma_trailing_spaces_char(stripped@, n - hi as int);
    }
    let mut out: String = String::new();
    let mut j: usize = 0;
    while j < hi
        invariant
            j <= hi <= stripped@.len(),
            out@ == stripped@.subrange(0, j as int),
        decreases hi - j,
    {
        out.push(stripped[j]);
        proof {
            assert(out@ =~= stripped@.subrange(0, j + 1 as int));
        }
        j = j + 1;
    }
    out.append("\n\n");
    let block: String = pressure_block_text(p_gpa);
    out.append(block.as_str());
    out.append("\n");
    proof {
        assert(out@ =~= spec_upsert_pressure(cell_text@, p_gpa));
    }
    out
}

/// Build the replacement block's text.
fn pressure_block_text(p: i64) -> (r: String)
    ensures
        r@ == spec_pressure_block(p),
{
    let d: String = micro_decimal(p);
    let mut s: String = String::new();
    s.append("%BLOCK EXTERNAL_PRESSURE\nGPa\n");
    s.append(d.as_str());
    s.append(" 0 0\n");
    s.append(d.as_str());
    s.append(" 0\n");
    s.append(d.as_str());
    s.append("\n%ENDBLOCK EXTERNAL_PRESSURE\n");
    proof {
        assert(s@ =~= spec_pressure_block(p));
    }
    s
}

} // verus!
