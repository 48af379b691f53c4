//! The command line: which mode a run is in, the output file, the
//! `file=label` inputs and the flags of the merge modes.

use vstd::prelude::*;
use vstd::string::StringExecFns;
use vstd::string::StrSliceExecFns;

verus! {

pub open spec fn starts_with_dash(s: Seq<char>) -> bool {
    s.len() > 0 && s[0] == '-'
}

pub open spec fn args_view(args: Seq<String>) -> Seq<Seq<char>> {
    args.map_values(|a: String| a@)
}

fn is_dashed(s: &String) -> (r: bool)
    ensures
        r == starts_with_dash(s@),
{
    let t = s.as_str();
    t.unicode_len() > 0 && t.get_char(0) == '-'
}

fn is_literal(s: &String, lit: &str) -> (r: bool)
    ensures
        r == (s@ == lit@),
{
    *s == String::from_str(lit)
}

/// The position of the first `-o`.
pub open spec fn out_index_spec(args: Seq<Seq<char>>) -> Option<int>
    decreases args.len(),
{
    if args.len() == 0 {
        None
    } else {
        match out_index_spec(args.drop_last()) {
            Some(i) => Some(i),
            None => if args.last() == "-o"@ {
                Some(args.len() - 1)
            } else {
                None
            },
        }
    }
}

proof fn lemma_out_index(args: Seq<Seq<char>>)
    ensures
        out_index_spec(args) matches Some(i) ==> 0 <= i < args.len() && args[i] == "-o"@ && forall|k: int|
            0 <= k < i ==> #[trigger] args[k] != "-o"@,
        out_index_spec(args) is None ==> forall|k: int| 0 <= k < args.len() ==> #[trigger] args[k] != "-o"@,
    decreases args.len(),
{
    if args.len() > 0 {
        let l = args.drop_last();
        lemma_out_index(l);
        assert forall|k: int| 0 <= k < args.len() - 1 implies #[trigger] args[k] == l[k] by {}
        if out_index_spec(l) is None && args.last() != "-o"@ {
            assert forall|k: int| 0 <= k < args.len() implies #[trigger] args[k] != "-o"@ by {
                if k < args.len() - 1 {
                    assert(args[k] == l[k]);
                }
            }
        }
    }
}

proof fn lemma_out_index_of(args: Seq<Seq<char>>, p: int)
    requires
        0 <= p < args.len(),
        args[p] == "-o"@,
        forall|k: int| 0 <= k < p ==> #[trigger] args[k] != "-o"@,
    ensures
        out_index_spec(args) == Some(p),
    decreases args.len(),
{
    let l = args.drop_last();
    lemma_out_index(l);
    if p < args.len() - 1 {
        assert(l[p] == args[p]);
        assert forall|k: int| 0 <= k < p implies #[trigger] l[k] != "-o"@ by {
            assert(l[k] == args[k]);
        }
        lemma_out_index_of(l, p);
    } else {
        match out_index_spec(l) {
            Some(i) => {
                assert(l[i] == args[i]);
            },
            None => {},
        }
    }
}

/// The position of the first `-o` argument.
pub fn out_index(args: &Vec<String>) -> (r: Option<usize>)
    ensures
        match r {
            Some(i) => out_index_spec(args_view(args@)) == Some(i as int),
            None => out_index_spec(args_view(args@)) is None,
        },
{
    let ghost av = args_view(args@);
    let mut k: usize = 0;
    while k < args.len()
        invariant
            av == args_view(args@),
            k <= args.len(),
            forall|j: int| 0 <= j < k ==> #[trigger] av[j] != "-o"@,
        decreases args.len() - k,
    {
        if is_literal(&args[k], "-o") {
            proof {
                lemma_out_index_of(av, k as int);
            }
            return Some(k);
        }
        k += 1;
    }
    proof {
        lemma_out_index(av);
        match out_index_spec(av) {
            Some(i) => {
                assert(av[i] != "-o"@);
            },
            None => {},
        }
    }
    None
}

/// A positional argument: not a flag, and not the value of `-o`.
pub open spec fn is_positional(args: Seq<Seq<char>>, oi: Option<int>, i: int) -> bool {
    &&& !starts_with_dash(args[i])
    &&& match oi {
        Some(o) => i != o + 1,
        None => true,
    }
}

/// The positional arguments, in order.
pub open spec fn positionals(args: Seq<Seq<char>>, oi: Option<int>, k: int) -> Seq<Seq<char>>
    decreases k,
{
    if k <= 0 {
        seq![]
    } else if is_positional(args, oi, k - 1) {
        positionals(args, oi, k - 1).push(args[k - 1])
    } else {
        positionals(args, oi, k - 1)
    }
}

/// Whether `s` holds an `=`.
pub fn has_equals(s: &String) -> (r: bool)
    ensures
        r == s@.contains('='),
{
    let t = s.as_str();
    let n = t.unicode_len();
    let mut k: usize = 0;
    while k < n
        invariant
            n == t@.len(),
            t@ == s@,
            k <= n,
            forall|j: int| 0 <= j < k ==> t@[j] != '=',
        decreases n - k,
    {
        if t.get_char(k) == '=' {
            return true;
        }
        k += 1;
    }
    false
}

/// Component mode: asked for with `--component`, or a single positional
/// argument without `=` (a component file rather than `file=label`).
pub open spec fn component_mode_spec(args: Seq<Seq<char>>) -> bool {
    let ps = positionals(args, out_index_spec(args), args.len() as int);
    args.contains("--component"@) || (ps.len() == 1 && !ps[0].contains('='))
}

proof fn lemma_push_contains(s: Seq<Seq<char>>, x: Seq<char>, y: Seq<char>)
    ensures
        s.push(x).contains(y) <==> (s.contains(y) || x == y),
{
    if s.push(x).contains(y) {
        let j = choose|j: int| 0 <= j < s.push(x).len() && s.push(x)[j] == y;
        if j < s.len() {
            assert(s[j] == y);
        }
    }
    if s.contains(y) {
        let j = choose|j: int| 0 <= j < s.len() && s[j] == y;
        assert(s.push(x)[j] == y);
    }
    if x == y {
        assert(s.push(x)[s.len() as int] == y);
    }
}

/// Whether the run merges a binary component rather than `file=label` inputs.
pub fn is_component_mode(args: &Vec<String>, oi: Option<usize>) -> (r: bool)
    requires
        match oi {
            Some(i) => out_index_spec(args_view(args@)) == Some(i as int),
            None => out_index_spec(args_view(args@)) is None,
        },
    ensures
        r == component_mode_spec(args_view(args@)),
{
    let ghost av = args_view(args@);
    let ghost ois = out_index_spec(av);
    let mut explicit = false;
    let mut count: usize = 0;
    let mut first: usize = 0;
    let mut k: usize = 0;
    while k < args.len()
        invariant
            av == args_view(args@),
            ois == out_index_spec(av),
            match oi {
                Some(i) => ois == Some(i as int),
                None => ois is None,
            },
            k <= args.len(),
            count <= k,
            explicit == av.take(k as int).contains("--component"@),
            count == positionals(av, ois, k as int).len(),
            count > 0 ==> first < args.len() && positionals(av, ois, k as int)[0] == av[first as int],
        decreases args.len() - k,
    {
        proof {
            assert(av.take(k + 1) =~= av.take(k as int).push(av[k as int]));
            lemma_push_contains(av.take(k as int), av[k as int], "--component"@);
        }
        if is_literal(&args[k], "--component") {
            explicit = true;
        }
        let pos = !is_dashed(&args[k]) && match oi {
            Some(o) => !(k > o && k - o == 1),
            None => true,
        };
        if pos {
            if count == 0 {
                first = k;
            }
            count += 1;
        }
        k += 1;
    }
    proof {
        assert(av.take(args.len() as int) =~= av);
    }
    explicit || (count == 1 && !has_equals(&args[first]))
}

pub open spec fn opt_int(oi: Option<usize>) -> Option<int> {
    match oi {
        Some(o) => Some(o as int),
        None => None,
    }
}

/// The component file: the first argument that is neither a flag, nor
/// `--component`, nor the value of `-o`.
pub fn component_input(args: &Vec<String>, oi: Option<usize>) -> (r: Option<usize>)
    ensures
        match r {
            Some(i) => i < args.len() && is_positional(args_view(args@), opt_int(oi), i as int)
                && forall|k: int| 0 <= k < i ==> !is_positional(args_view(args@), opt_int(oi), k),
            None => forall|k: int| 0 <= k < args.len() ==> !is_positional(args_view(args@), opt_int(oi), k),
        },
{
    let ghost av = args_view(args@);
    let ghost ois = opt_int(oi);
    let mut k: usize = 0;
    while k < args.len()
        invariant
            av == args_view(args@),
            ois == opt_int(oi),
            k <= args.len(),
            forall|j: int| 0 <= j < k ==> !is_positional(av, ois, j),
        decreases args.len() - k,
    {
        let pos = !is_dashed(&args[k]) && match oi {
            Some(o) => !(k > o && k - o == 1),
            None => true,
        };
        if pos {
            return Some(k);
        }
        k += 1;
    }
    None
}

/// What the command line asks of a merge of `file=label` inputs.
pub struct MergeOptions {
    pub inputs: Vec<(String, String)>,
    pub exports_from: Option<String>,
    pub specialize: bool,
    pub dispatch: bool,
    pub lib_label: Option<String>,
}

/// Why a command line is refused.
pub enum CliError {
    /// `-o` is the last argument.
    MissingOutput,
    /// This flag is the last argument and needs a value.
    MissingValue(String),
    /// An input is not of the form `file=label`.
    NotLabelled(String),
    NoInputs,
    NoComponentFile,
    /// The merge mode named needs `--lib`.
    MissingLib(String),
    /// The library label names no input.
    LibNotFound(String),
}

impl CliError {
    /// The error text.
    pub fn message(&self) -> (s: String)
        ensures
            s@ == match self {
                CliError::MissingOutput => "-o requires a filename"@,
                CliError::MissingValue(f) => f@ + " requires a value"@,
                CliError::NotLabelled(a) => "expected <file.wasm>=<label>, got: "@ + a@,
                CliError::NoInputs => "no input modules specified"@,
                CliError::NoComponentFile => "no component file specified"@,
                CliError::MissingLib(m) => "--"@ + m@ + " requires --lib <label>"@,
                CliError::LibNotFound(l) => "--lib "@ + l@ + " not found in inputs"@,
            },
    {
        match self {
            CliError::MissingOutput => String::from_str("-o requires a filename"),
            CliError::MissingValue(f) => {
                let mut s = f.clone();
                s.append(" requires a value");
                s
            },
            CliError::NotLabelled(a) => {
                let mut s = String::from_str("expected <file.wasm>=<label>, got: ");
                s.append(a.as_str());
                s
            },
            CliError::NoInputs => String::from_str("no input modules specified"),
            CliError::NoComponentFile => String::from_str("no component file specified"),
            CliError::MissingLib(m) => crate::text::concat3("--", m.as_str(), " requires --lib <label>"),
            CliError::LibNotFound(l) => crate::text::concat3("--lib ", l.as_str(), " not found in inputs"),
        }
    }
}

/// The output file named by `-o`, if any.
pub fn out_file(args: &Vec<String>, oi: Option<usize>) -> (r: Result<Option<String>, CliError>)
    ensures
        match oi {
            None => r matches Ok(None),
            Some(i) => if i + 1 < args.len() {
                r matches Ok(Some(f)) && f@ == args@[i + 1]@
            } else {
                r matches Err(CliError::MissingOutput)
            },
        },
{
    match oi {
        None => Ok(None),
        Some(i) => if i < args.len() && i + 1 < args.len() {
            Ok(Some(args[i + 1].clone()))
        } else {
            Err(CliError::MissingOutput)
        },
    }
}

/// The position of the first `=` in `s`.
pub open spec fn first_equals(s: Seq<char>, k: int) -> Option<int>
    decreases s.len() - k,
{
    if k >= s.len() || k < 0 {
        None
    } else if s[k] == '=' {
        Some(k)
    } else {
        first_equals(s, k + 1)
    }
}

/// `s` split at its first `=`.
pub open spec fn split_label(s: Seq<char>) -> Option<(Seq<char>, Seq<char>)> {
    match first_equals(s, 0) {
        Some(k) => Some((s.subrange(0, k), s.subrange(k + 1, s.len() as int))),
        None => None,
    }
}

/// Splits `file=label` at the first `=`.
pub fn split_once_equals(s: &String) -> (r: Option<(String, String)>)
    ensures
        match r {
            Some((f, l)) => split_label(s@) == Some((f@, l@)),
            None => split_label(s@) is None,
        },
{
    let t = s.as_str();
    let n = t.unicode_len();
    let mut k: usize = 0;
    while k < n
        invariant
            n == t@.len(),
            t@ == s@,
            k <= n,
            first_equals(s@, 0) == first_equals(s@, k as int),
        decreases n - k,
    {
        if t.get_char(k) == '=' {
            let file = String::from_str(t.substring_char(0, k));
            let label = String::from_str(t.substring_char(k + 1, n));
            return Some((file, label));
        }
        k += 1;
    }
    None
}

/// The state of a scan of the merge-mode arguments.
pub struct ScanState {
    pub inputs: Seq<(Seq<char>, Seq<char>)>,
    pub exports_from: Option<Seq<char>>,
    pub specialize: bool,
    pub dispatch: bool,
    pub lib_label: Option<Seq<char>>,
}

/// Why a scan of the merge-mode arguments stops.
pub enum ScanFailure {
    /// This flag is the last argument.
    MissingValue(Seq<char>),
    /// This argument is not of the form `file=label`.
    NotLabelled(Seq<char>),
}

/// The scan of the merge-mode arguments from position `i` on: `-o` skips its
/// value, `--exports-from` and `--lib` take theirs, `--specialize` and
/// `--dispatch` set their flag, other flags are passed over, and every other
/// argument is a `file=label` input.
pub open spec fn scan_from(args: Seq<Seq<char>>, i: int, st: ScanState) -> Result<ScanState, ScanFailure>
    decreases args.len() + 1 - i,
{
    if i >= args.len() || i < 0 {
        Ok(st)
    } else {
        let a = args[i];
        if a == "-o"@ {
            scan_from(args, i + 2, st)
        } else if a == "--exports-from"@ {
            if i + 1 < args.len() {
                scan_from(args, i + 2, ScanState { exports_from: Some(args[i + 1]), ..st })
            } else {
                Err(ScanFailure::MissingValue(a))
            }
        } else if a == "--specialize"@ {
            scan_from(args, i + 1, ScanState { specialize: true, ..st })
        } else if a == "--dispatch"@ {
            scan_from(args, i + 1, ScanState { dispatch: true, ..st })
        } else if a == "--lib"@ {
            if i + 1 < args.len() {
                scan_from(args, i + 2, ScanState { lib_label: Some(args[i + 1]), ..st })
            } else {
                Err(ScanFailure::MissingValue(a))
            }
        } else if starts_with_dash(a) {
            scan_from(args, i + 1, st)
        } else {
            match split_label(a) {
                Some(p) => scan_from(args, i + 1, ScanState { inputs: st.inputs.push(p), ..st }),
                None => Err(ScanFailure::NotLabelled(a)),
            }
        }
    }
}

pub open spec fn pair_views(s: Seq<(String, String)>) -> Seq<(Seq<char>, Seq<char>)> {
    s.map_values(|p: (String, String)| (p.0@, p.1@))
}

pub open spec fn opt_string_view(o: Option<String>) -> Option<Seq<char>> {
    match o {
        Some(s) => Some(s@),
        None => None,
    }
}

impl MergeOptions {
    pub open spec fn view_state(&self) -> ScanState {
        ScanState {
            inputs: pair_views(self.inputs@),
            exports_from: opt_string_view(self.exports_from),
            specialize: self.specialize,
            dispatch: self.dispatch,
            lib_label: opt_string_view(self.lib_label),
        }
    }
}

pub open spec fn empty_scan() -> ScanState {
    ScanState { inputs: seq![], exports_from: None, specialize: false, dispatch: false, lib_label: None }
}

/// Reads the arguments of a merge of `file=label` inputs, as `scan_from`
/// says; a scan that finds no input is refused.
pub fn parse_merge_args(args: &Vec<String>) -> (r: Result<MergeOptions, CliError>)
    ensures
        match scan_from(args_view(args@), 0, empty_scan()) {
            Ok(st) => if st.inputs.len() == 0 {
                r matches Err(CliError::NoInputs)
            } else {
                r matches Ok(o) && o.view_state() == st
            },
            Err(ScanFailure::MissingValue(f)) => r matches Err(CliError::MissingValue(g)) && g@ == f,
            Err(ScanFailure::NotLabelled(a)) => r matches Err(CliError::NotLabelled(b)) && b@ == a,
        },
{
    let ghost av = args_view(args@);
    let mut opts = MergeOptions { inputs: Vec::new(), exports_from: None, specialize: false, dispatch: false, lib_label: None };
    proof {
        assert(opts.view_state() == empty_scan()) by {
            assert(pair_views(opts.inputs@) =~= seq![]);
        }
    }
    let mut i: usize = 0;
    while i < args.len()
        invariant
            av == args_view(args@),
            i <= args.len(),
            scan_from(av, 0, empty_scan()) == scan_from(av, i as int, opts.view_state()),
        decreases args.len() - i,
    {
        let a = &args[i];
        let ghost st0 = opts.view_state();
        proof {
            assert(av[i as int] == a@);
        }
        if is_literal(a, "-o") {
            if i + 1 < args.len() {
                i += 2;
            } else {
                proof {
                    assert(scan_from(av, i + 2, st0) == Ok::<ScanState, ScanFailure>(st0));
                }
                i = args.len();
            }
        } else if is_literal(a, "--exports-from") {
            if i + 1 < args.len() {
                opts.exports_from = Some(args[i + 1].clone());
                i += 2;
            } else {
                return Err(CliError::MissingValue(a.clone()));
            }
        } else if is_literal(a, "--specialize") {
            opts.specialize = true;
            i += 1;
        } else if is_literal(a, "--dispatch") {
            opts.dispatch = true;
            i += 1;
        } else if is_literal(a, "--lib") {
            if i + 1 < args.len() {
                opts.lib_label = Some(args[i + 1].clone());
                i += 2;
            } else {
                return Err(CliError::MissingValue(a.clone()));
            }
        } else if is_dashed(a) {
            i += 1;
        } else {
            match split_once_equals(a) {
                Some(pair) => {
                    let ghost before = pair_views(opts.inputs@);
                    let ghost pv = (pair.0@, pair.1@);
                    opts.inputs.push(pair);
                    proof {
                        assert(pair_views(opts.inputs@) =~= before.push(pv));
                    }
                    i += 1;
                },
                None => return Err(CliError::NotLabelled(a.clone())),
            }
        }
    }
    if opts.inputs.len() == 0 {
        return Err(CliError::NoInputs);
    }
    Ok(opts)
}

/// The module a label names: the last input with that label.
pub open spec fn label_position(inputs: Seq<(Seq<char>, Seq<char>)>, label: Seq<char>) -> Option<int>
    decreases inputs.len(),
{
    if inputs.len() == 0 {
        None
    } else if inputs.last().1 == label {
        Some(inputs.len() - 1)
    } else {
        label_position(inputs.drop_last(), label)
    }
}

/// The input a label names (the last one with that label).
pub fn find_label(inputs: &Vec<(String, String)>, label: &String) -> (r: Option<usize>)
    ensures
        match r {
            Some(i) => label_position(pair_views(inputs@), label@) == Some(i as int),
            None => label_position(pair_views(inputs@), label@) is None,
        },
{
    let mut k: usize = inputs.len();
    proof {
        assert(pair_views(inputs@).take(k as int) =~= pair_views(inputs@));
    }
    while k > 0
        invariant
            k <= inputs.len(),
            label_position(pair_views(inputs@), label@) == label_position(pair_views(inputs@).take(k as int), label@),
        decreases k,
    {
        proof {
            assert(pair_views(inputs@).take(k as int).drop_last() =~= pair_views(inputs@).take(k - 1));
        }
        if inputs[k - 1].1 == *label {
            return Some(k - 1);
        }
        k -= 1;
    }
    None
}

/// The library of a `--specialize` or `--dispatch` run (`mode` names it) and
/// its consumers: every other input, in order.
pub fn library_and_consumers(opts: &MergeOptions, mode: &str) -> (r: Result<(usize, Vec<usize>), CliError>)
    ensures
        match opts.lib_label {
            None => r matches Err(CliError::MissingLib(m)) && m@ == mode@,
            Some(l) => match label_position(pair_views(opts.inputs@), l@) {
                None => r matches Err(CliError::LibNotFound(m)) && m@ == l@,
                Some(li) => r matches Ok((lib, consumers)) && lib == li && consumers@ == Seq::new(
                    opts.inputs.len() as nat,
                    |i: int| i as usize,
                ).filter(|i: usize| i != li),
            },
        },
{
    let label = match &opts.lib_label {
        Some(l) => l,
        None => return Err(CliError::MissingLib(String::from_str(mode))),
    };
    let lib = match find_label(&opts.inputs, label) {
        Some(i) => i,
        None => return Err(CliError::LibNotFound(label.clone())),
    };
    let ghost all = Seq::new(opts.inputs.len() as nat, |i: int| i as usize);
    let mut consumers: Vec<usize> = Vec::new();
    let mut i: usize = 0;
    while i < opts.inputs.len()
        invariant
            all == Seq::new(opts.inputs.len() as nat, |i: int| i as usize),
            i <= opts.inputs.len(),
            consumers@ == all.take(i as int).filter(|j: usize| j != lib),
        decreases opts.inputs.len() - i,
    {
        proof {
            reveal(Seq::filter);
            assert(all.take(i + 1).drop_last() =~= all.take(i as int));
            assert(all.take(i + 1).last() == i);
        }
        if i != lib {
            consumers.push(i);
        }
        i += 1;
    }
    proof {
        assert(all.take(opts.inputs.len() as int) =~= all);
    }
    Ok((lib, consumers))
}

/// The digits of a position given to `--exports-from` (an optional `+`, then
/// decimal digits), read as a number; `None` when it is not one or does not fit.
pub fn parse_position(s: &String) -> (r: Option<usize>)
    ensures
        r matches Some(v) ==> position_value(s@) == Some(v as nat),
        r is None ==> position_value(s@) is None || position_value(s@).unwrap() > usize::MAX,
{
    let t = s.as_str();
    let n = t.unicode_len();
    let mut k: usize = 0;
    if n > 0 && t.get_char(0) == '+' {
        k = 1;
    }
    let ghost body = s@.subrange(k as int, n as int);
    proof {
        if k == 0 {
            assert(body =~= s@);
        }
        let pb = if s@.len() > 0 && s@[0] == '+' {
            s@.subrange(1, s@.len() as int)
        } else {
            s@
        };
        assert(pb == body);
    }
    if k >= n {
        return None;
    }
    let start = k;
    let mut v: usize = 0;
    while k < n
        invariant
            n == s@.len(),
            t@ == s@,
            start <= k <= n,
            body == s@.subrange(start as int, n as int),
            body == (if s@.len() > 0 && s@[0] == '+' {
                s@.subrange(1, s@.len() as int)
            } else {
                s@
            }),
            all_digits(s@.subrange(start as int, k as int)),
            v == digits_value(s@.subrange(start as int, k as int)),
        decreases n - k,
    {
        let c = t.get_char(k);
        proof {
            assert(body[k - start] == c);
        }
        if c < '0' || c > '9' {
            proof {
                lemma_not_all_digits(body, k - start);
            }
            return None;
        }
        let d = (c as u32 - '0' as u32) as usize;
        proof {
            assert(s@.subrange(start as int, k + 1).drop_last() =~= s@.subrange(start as int, k as int));
            assert(s@.subrange(start as int, k + 1).last() == c);
            assert(body.take(k + 1 - start) =~= s@.subrange(start as int, k + 1));
        }
        if v > (usize::MAX - d) / 10 {
            proof {
                assert(v * 10 + d > usize::MAX) by (nonlinear_arith)
                    requires
                        v > (usize::MAX - d) / 10,
                        d <= 9,
                ;
                if all_digits(body) {
                    lemma_digits_value_grows(body, k + 1 - start);
                }
            }
            return None;
        }
        v = v * 10 + d;
        k += 1;
    }
    proof {
        assert(s@.subrange(start as int, n as int) =~= body);
    }
    Some(v)
}

pub open spec fn is_digit(c: char) -> bool {
    '0' <= c <= '9'
}

pub open spec fn all_digits(s: Seq<char>) -> bool {
    forall|i: int| 0 <= i < s.len() ==> is_digit(#[trigger] s[i])
}

pub open spec fn digits_value(s: Seq<char>) -> nat
    decreases s.len(),
{
    if s.len() == 0 {
        0
    } else {
        digits_value(s.drop_last()) * 10 + (s.last() as nat - '0' as nat) as nat
    }
}

/// The number an optional `+` followed by at least one decimal digit spells.
pub open spec fn position_value(s: Seq<char>) -> Option<nat> {
    let body = if s.len() > 0 && s[0] == '+' {
        s.subrange(1, s.len() as int)
    } else {
        s
    };
    if body.len() > 0 && all_digits(body) {
        Some(digits_value(body))
    } else {
        None
    }
}

proof fn lemma_not_all_digits(s: Seq<char>, i: int)
    requires
        0 <= i < s.len(),
        !is_digit(s[i]),
    ensures
        !all_digits(s),
{
}

proof fn lemma_digits_value_grows(s: Seq<char>, k: int)
    requires
        0 <= k <= s.len(),
        all_digits(s),
    ensures
        digits_value(s) >= digits_value(s.take(k)),
    decreases s.len() - k,
{
    if k < s.len() {
        lemma_digits_value_grows(s, k + 1);
        assert(s.take(k + 1).drop_last() =~= s.take(k));
        assert(is_digit(s[k]));
    }
    else {
        assert(s.take(k) =~= s);
    }
}

} // verus!
