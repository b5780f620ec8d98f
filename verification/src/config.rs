//! The persisted configuration and its rules: which template names are
//! remembered, which custom templates exist, what counts as a valid custom
//! template, and how the option and pre-selection lists are built from
//! both. The host reads and writes the configuration file; everything that
//! decides is here.

use vstd::prelude::*;

use crate::strkit::{byte_len, contains_string, list_contains_string, lower_of, str_byte_len,
    str_contains, to_lowercase};

verus! {

/// Upper bound on the total size of one custom template, in bytes.
pub const MAX_CUSTOM_TEMPLATE_SIZE: usize = 100 * 1024;

/// Upper bound on the line count of one custom template.
pub const MAX_CUSTOM_TEMPLATE_LINES: usize = 10000;

/// One custom template: its name and its content lines.
#[derive(Debug)]
pub struct CustomTemplate {
    pub name: String,
    pub lines: Vec<String>,
}

/// The persisted configuration: previously selected template names, and
/// the custom templates in name order. Mirrors the configuration file; the
/// host parses and writes the file and converts.
#[derive(Debug)]
pub struct LignoreConfig {
    pub templates: Vec<String>,
    pub custom: Vec<CustomTemplate>,
}

/// The names of the custom templates, in order.
pub open spec fn custom_names(custom: Seq<CustomTemplate>) -> Seq<String> {
    custom.map_values(|c: CustomTemplate| c.name)
}

/// Some custom template is named `name`.
pub open spec fn has_custom(custom: Seq<CustomTemplate>, name: Seq<char>) -> bool {
    contains_string(custom_names(custom), name)
}

impl LignoreConfig {
    /// An empty configuration: nothing remembered, no custom templates.
    pub fn empty() -> (r: LignoreConfig)
        ensures
            r.templates@ == Seq::<String>::empty(),
            r.custom@ == Seq::<CustomTemplate>::empty(),
    {
        LignoreConfig { templates: Vec::new(), custom: Vec::new() }
    }

    /// Whether `name` names one of the custom templates.
    pub fn has_custom_named(&self, name: &String) -> (r: bool)
        ensures
            r == has_custom(self.custom@, name@),
    {
        let n = self.custom.len();
        let mut i: usize = 0;
        while i < n
            invariant
                i <= n,
                n == self.custom@.len(),
                forall|k: int| 0 <= k < i ==> (#[trigger] self.custom@[k]).name@ != name@,
            decreases n - i,
        {
            if self.custom[i].name == *name {
                proof {
                    assert(custom_names(self.custom@)[i as int]@ == name@);
                }
                return true;
            }
            i += 1;
        }
        proof {
            assert forall|k: int| 0 <= k < custom_names(self.custom@).len() implies (
            #[trigger] custom_names(self.custom@)[k])@ != name@ by {
                assert(custom_names(self.custom@)[k] == self.custom@[k].name);
            }
        }
        false
    }
}

/// Why one custom template was rejected.
#[derive(Debug, PartialEq, Eq)]
pub enum TemplateValidationError {
    /// More lines than `MAX_CUSTOM_TEMPLATE_LINES`.
    TooManyLines { count: usize },
    /// More bytes across all lines than `MAX_CUSTOM_TEMPLATE_SIZE` (the
    /// size saturates at `usize::MAX` rather than wrapping).
    TooLarge { size: usize },
    /// A null byte, on this 1-based line.
    NullByte { line: usize },
}

/// Why a whole configuration was rejected.
#[derive(Debug, PartialEq, Eq)]
pub enum ConfigError {
    /// Remembered template names that exist neither officially nor as
    /// custom templates, in their order of appearance.
    InvalidTemplates(Vec<String>),
    /// Custom templates whose names collide case-insensitively with
    /// official ones, each paired with the official name it collides with.
    ShadowedTemplates(Vec<(String, String)>),
}

/// Total byte length of the first `n` lines, saturated at `usize::MAX`.
pub open spec fn total_size_up_to(lines: Seq<String>, n: int) -> int
    decreases n,
{
    if n <= 0 {
        0
    } else {
        let prev = total_size_up_to(lines, n - 1);
        let sum = prev + byte_len(lines[n - 1]@);
        if sum <= usize::MAX {
            sum
        } else {
            usize::MAX as int
        }
    }
}

/// The first line (1-based) holding a null byte, if any line does.
pub open spec fn first_null_line(lines: Seq<String>, n: int) -> Option<int>
    decreases n,
{
    if n <= 0 {
        None
    } else {
        match first_null_line(lines, n - 1) {
            Some(i) => Some(i),
            None => if lines[n - 1]@.contains('\0') {
                Some(n)
            } else {
                None
            },
        }
    }
}

/// What `validate_custom_template` decides for these lines: the line count
/// is checked first, the total size second, null bytes last.
pub open spec fn custom_template_verdict(lines: Seq<String>) -> Result<
    (),
    TemplateValidationError,
> {
    if lines.len() > MAX_CUSTOM_TEMPLATE_LINES {
        Err(TemplateValidationError::TooManyLines { count: lines.len() as usize })
    } else if total_size_up_to(lines, lines.len() as int) > MAX_CUSTOM_TEMPLATE_SIZE {
        Err(
            TemplateValidationError::TooLarge {
                size: total_size_up_to(lines, lines.len() as int) as usize,
            },
        )
    } else {
        match first_null_line(lines, lines.len() as int) {
            Some(i) => Err(TemplateValidationError::NullByte { line: i as usize }),
            None => Ok(()),
        }
    }
}

/// Validate one custom template: not too many lines, not too large in
/// total, and no null byte anywhere. The name only labels the verdict; the
/// decision depends on the lines alone.
pub fn validate_custom_template(name: &String, lines: &Vec<String>) -> (r: Result<
    (),
    TemplateValidationError,
>)
    ensures
        r == custom_template_verdict(lines@),
{
    let _ = name;
    let n = lines.len();
    if n > MAX_CUSTOM_TEMPLATE_LINES {
        return Err(TemplateValidationError::TooManyLines { count: n });
    }
    let mut total: usize = 0;
    let mut i: usize = 0;
    while i < n
        invariant
            i <= n,
            n == lines@.len(),
            total as int == total_size_up_to(lines@, i as int),
        decreases n - i,
    {
        let len = str_byte_len(lines[i].as_str());
        if len <= usize::MAX - total {
            total = total + len;
        } else {
            total = usize::MAX;
        }
        i += 1;
    }
    if total > MAX_CUSTOM_TEMPLATE_SIZE {
        return Err(TemplateValidationError::TooLarge { size: total });
    }
    let mut i: usize = 0;
    while i < n
        invariant
            i <= n,
            n == lines@.len(),
            n <= MAX_CUSTOM_TEMPLATE_LINES,
            total_size_up_to(lines@, n as int) <= MAX_CUSTOM_TEMPLATE_SIZE,
            first_null_line(lines@, i as int) is None,
        decreases n - i,
    {
        let has_null = str_contains(lines[i].as_str(), "\0");
        proof {
            reveal_strlit("\0");
            assert("\0"@ =~= seq!['\0']);
            crate::strkit::lemma_single_char_substring(lines@[i as int]@, '\0');
        }
        if has_null {
            proof {
                assert(first_null_line(lines@, i + 1) == Some((i + 1) as int));
                lemma_first_null_line_stable(lines@, i + 1, lines@.len() as int);
            }
            return Err(TemplateValidationError::NullByte { line: i + 1 });
        }
        i += 1;
    }
    Ok(())
}

/// Once a null byte is found at line `i`, looking further does not change
/// the verdict.
proof fn lemma_first_null_line_stable(lines: Seq<String>, n: int, m: int)
    requires
        0 <= n <= m <= lines.len(),
        first_null_line(lines, n) is Some,
    ensures
        first_null_line(lines, m) == first_null_line(lines, n),
    decreases m - n,
{
    if n < m {
        lemma_first_null_line_stable(lines, n, m - 1);
    }
}

/// Validate every custom template of a configuration, in order; the first
/// failing one decides.
pub fn validate_all_custom_templates(config: &LignoreConfig) -> (r: Result<
    (),
    TemplateValidationError,
>)
    ensures
        r is Ok <==> (forall|k: int|
            0 <= k < config.custom@.len() ==> custom_template_verdict(
                (#[trigger] config.custom@[k]).lines@,
            ) is Ok),
{
    let n = config.custom.len();
    let mut i: usize = 0;
    while i < n
        invariant
            i <= n,
            n == config.custom@.len(),
            forall|k: int|
                0 <= k < i ==> custom_template_verdict(
                    (#[trigger] config.custom@[k]).lines@,
                ) is Ok,
        decreases n - i,
    {
        let entry = &config.custom[i];
        match validate_custom_template(&entry.name, &entry.lines) {
            Ok(()) => {},
            Err(e) => {
                return Err(e);
            },
        }
        i += 1;
    }
    Ok(())
}

/// Accept a configuration the host loaded, or fall back to the empty one:
/// a missing file, and a loaded configuration with an unacceptable custom
/// template, both yield the default. The host reads and parses the file;
/// the acceptance decision lives here.
pub fn load_or_default_config(parsed: Option<LignoreConfig>) -> (r: LignoreConfig)
    ensures
        match parsed {
            None => r.templates@ == Seq::<String>::empty() && r.custom@ == Seq::<
                CustomTemplate,
            >::empty(),
            Some(c) => if forall|k: int|
                0 <= k < c.custom@.len() ==> custom_template_verdict(
                    (#[trigger] c.custom@[k]).lines@,
                ) is Ok {
                r == c
            } else {
                r.templates@ == Seq::<String>::empty() && r.custom@ == Seq::<
                    CustomTemplate,
                >::empty()
            },
        },
{
    match parsed {
        None => LignoreConfig::empty(),
        Some(c) => {
            match validate_all_custom_templates(&c) {
                Ok(()) => c,
                Err(_) => LignoreConfig::empty(),
            }
        },
    }
}

/// A remembered template name that exists neither officially nor as a
/// custom template.
pub open spec fn is_invalid_ref(
    t: String,
    available: Seq<String>,
    custom: Seq<CustomTemplate>,
) -> bool {
    !contains_string(available, t@) && !has_custom(custom, t@)
}

/// The invalid references among the first `n` remembered names, in order.
pub open spec fn invalid_refs_up_to(
    templates: Seq<String>,
    available: Seq<String>,
    custom: Seq<CustomTemplate>,
    n: int,
) -> Seq<String>
    decreases n,
{
    if n <= 0 {
        Seq::empty()
    } else {
        let prev = invalid_refs_up_to(templates, available, custom, n - 1);
        if is_invalid_ref(templates[n - 1], available, custom) {
            prev.push(templates[n - 1])
        } else {
            prev
        }
    }
}

/// Reject a configuration that remembers template names which exist
/// neither in `available` nor among the custom templates; the offending
/// names are reported in order.
pub fn check_invalid_templates(available: &Vec<String>, config: &LignoreConfig) -> (r: Result<
    (),
    ConfigError,
>)
    ensures
        ({
            let inv = invalid_refs_up_to(
                config.templates@,
                available@,
                config.custom@,
                config.templates@.len() as int,
            );
            if inv.len() == 0 {
                r is Ok
            } else {
                r matches Err(ConfigError::InvalidTemplates(v)) && v@ == inv
            }
        }),
{
    let n = config.templates.len();
    let mut invalid: Vec<String> = Vec::new();
    let mut i: usize = 0;
    while i < n
        invariant
            i <= n,
            n == config.templates@.len(),
            invalid@ == invalid_refs_up_to(
                config.templates@,
                available@,
                config.custom@,
                i as int,
            ),
        decreases n - i,
    {
        let t = &config.templates[i];
        let official = list_contains_string(available, t);
        let custom = config.has_custom_named(t);
        if !official && !custom {
            invalid.push(t.clone());
        }
        i += 1;
    }
    if invalid.len() == 0 {
        Ok(())
    } else {
        Err(ConfigError::InvalidTemplates(invalid))
    }
}

/// Official name at `k` folds to the same string as `c`.
pub open spec fn lower_matches(officials: Seq<String>, c: Seq<char>, k: int) -> bool {
    0 <= k < officials.len() && lower_of(officials[k]@) == lower_of(c)
}

/// Some official name collides case-insensitively with `c`.
pub open spec fn is_shadowed(officials: Seq<String>, c: Seq<char>) -> bool {
    exists|k: int| #[trigger] lower_matches(officials, c, k)
}

/// Index of the first case-insensitive collision at or after `i`
/// (`officials.len()` when none).
pub open spec fn first_lower_match(officials: Seq<String>, c: Seq<char>, i: int) -> int
    decreases officials.len() - i,
{
    if i < 0 || i >= officials.len() {
        officials.len() as int
    } else if lower_of(officials[i]@) == lower_of(c) {
        i
    } else {
        first_lower_match(officials, c, i + 1)
    }
}

/// The official name reported against a shadowing custom name `c`: `c`
/// itself when an official name matches it exactly, else the first
/// official name that collides case-insensitively.
pub open spec fn shadow_partner(officials: Seq<String>, c: Seq<char>) -> Seq<char> {
    if contains_string(officials, c) {
        c
    } else {
        officials[first_lower_match(officials, c, 0)]@
    }
}

/// The (custom name, official name) collision pairs among the first `n`
/// custom templates, in order.
pub open spec fn shadowed_pairs_up_to(
    officials: Seq<String>,
    custom: Seq<CustomTemplate>,
    n: int,
) -> Seq<(Seq<char>, Seq<char>)>
    decreases n,
{
    if n <= 0 {
        Seq::empty()
    } else {
        let prev = shadowed_pairs_up_to(officials, custom, n - 1);
        let name = custom[n - 1].name@;
        if is_shadowed(officials, name) {
            prev.push((name, shadow_partner(officials, name)))
        } else {
            prev
        }
    }
}

proof fn lemma_first_lower_match_from(officials: Seq<String>, c: Seq<char>, i: int, f: int)
    requires
        0 <= i <= f < officials.len(),
        lower_of(officials[f]@) == lower_of(c),
        forall|k: int| i <= k < f ==> lower_of((#[trigger] officials[k])@) != lower_of(c),
    ensures
        first_lower_match(officials, c, i) == f,
    decreases f - i,
{
    if i < f {
        lemma_first_lower_match_from(officials, c, i + 1, f);
    }
}

/// Reject a configuration whose custom templates shadow official template
/// names case-insensitively; each offender is reported with the official
/// name it collides with.
pub fn check_shadowed_templates(officials: &Vec<String>, config: &LignoreConfig) -> (r: Result<
    (),
    ConfigError,
>)
    ensures
        ({
            let pairs = shadowed_pairs_up_to(
                officials@,
                config.custom@,
                config.custom@.len() as int,
            );
            if pairs.len() == 0 {
                r is Ok
            } else {
                r matches Err(ConfigError::ShadowedTemplates(v)) && v@.len() == pairs.len()
                    && (forall|k: int|
                    0 <= k < pairs.len() ==> (#[trigger] v@[k]).0@ == pairs[k].0 && v@[k].1@
                        == pairs[k].1)
            }
        }),
{
    let m = config.custom.len();
    let n = officials.len();
    let mut shadowed: Vec<(String, String)> = Vec::new();
    let mut ci: usize = 0;
    while ci < m
        invariant
            ci <= m,
            m == config.custom@.len(),
            n == officials@.len(),
            shadowed@.len() == shadowed_pairs_up_to(officials@, config.custom@, ci as int).len(),
            forall|k: int|
                0 <= k < shadowed@.len() ==> {
                    let pairs = shadowed_pairs_up_to(officials@, config.custom@, ci as int);
                    (#[trigger] shadowed@[k]).0@ == pairs[k].0 && shadowed@[k].1@ == pairs[k].1
                },
        decreases m - ci,
    {
        let name = &config.custom[ci].name;
        let low = to_lowercase(name.as_str());
        let mut first_match: usize = n;
        let mut exact = false;
        let mut k: usize = 0;
        while k < n
            invariant
                k <= n,
                n == officials@.len(),
                low@ == lower_of(name@),
                first_match <= n,
                first_match == n ==> forall|j: int|
                    0 <= j < k ==> lower_of((#[trigger] officials@[j])@) != lower_of(name@),
                first_match < n ==> first_match < k && lower_of(officials@[first_match as int]@)
                    == lower_of(name@) && (forall|j: int|
                    0 <= j < first_match ==> lower_of((#[trigger] officials@[j])@) != lower_of(
                        name@,
                    )),
                exact ==> contains_string(officials@, name@),
                !exact ==> forall|j: int| 0 <= j < k ==> (#[trigger] officials@[j])@ != name@,
            decreases n - k,
        {
            let off = &officials[k];
            let off_low = to_lowercase(off.as_str());
            if first_match == n && off_low == low {
                first_match = k;
            }
            if !exact && *off == *name {
                proof {
                    assert(officials@[k as int]@ == name@);
                    assert(contains_string(officials@, name@));
                }
                exact = true;
            }
            k += 1;
        }
        proof {
            if exact {
                let j = choose|j: int|
                    0 <= j < officials@.len() && (#[trigger] officials@[j])@ == name@;
                assert(lower_matches(officials@, name@, j));
                assert(first_match < n);
            }
            if first_match < n {
                assert(lower_matches(officials@, name@, first_match as int));
                lemma_first_lower_match_from(officials@, name@, 0, first_match as int);
            } else {
                assert forall|j: int| !lower_matches(officials@, name@, j) by {}
            }
        }
        if first_match < n {
            let partner = if exact {
                name.clone()
            } else {
                officials[first_match].clone()
            };
            shadowed.push((name.clone(), partner));
            proof {
                let pairs1 = shadowed_pairs_up_to(officials@, config.custom@, ci + 1);
                let pairs0 = shadowed_pairs_up_to(officials@, config.custom@, ci as int);
                assert(pairs1 == pairs0.push((name@, shadow_partner(officials@, name@))));
            }
        } else {
            proof {
                assert(!is_shadowed(officials@, name@));
            }
        }
        ci += 1;
    }
    if shadowed.len() == 0 {
        Ok(())
    } else {
        Err(ConfigError::ShadowedTemplates(shadowed))
    }
}

/// Validate a configuration against the official template list: no
/// remembered name may dangle, and no custom template may shadow an
/// official one. Dangling names are reported first.
pub fn validate_config(options: &Vec<String>, config: &LignoreConfig) -> (r: Result<
    (),
    ConfigError,
>)
    ensures
        ({
            let inv = invalid_refs_up_to(
                config.templates@,
                options@,
                config.custom@,
                config.templates@.len() as int,
            );
            let pairs = shadowed_pairs_up_to(
                options@,
                config.custom@,
                config.custom@.len() as int,
            );
            if inv.len() > 0 {
                r matches Err(ConfigError::InvalidTemplates(v)) && v@ == inv
            } else if pairs.len() > 0 {
                r matches Err(ConfigError::ShadowedTemplates(v)) && v@.len() == pairs.len() && (
                forall|k: int|
                    0 <= k < pairs.len() ==> (#[trigger] v@[k]).0@ == pairs[k].0 && v@[k].1@
                        == pairs[k].1)
            } else {
                r is Ok
            }
        }),
{
    match check_invalid_templates(options, config) {
        Ok(()) => {},
        Err(e) => {
            return Err(e);
        },
    }
    check_shadowed_templates(options, config)
}

/// Append `x` to `acc` unless an equal string is already there.
pub open spec fn push_unseen(acc: Seq<String>, x: String) -> Seq<String> {
    if contains_string(acc, x@) {
        acc
    } else {
        acc.push(x)
    }
}

/// Fold `push_unseen` over the first `n` strings of `xs`.
pub open spec fn append_unseen(acc: Seq<String>, xs: Seq<String>, n: int) -> Seq<String>
    decreases n,
{
    if n <= 0 {
        acc
    } else {
        push_unseen(append_unseen(acc, xs, n - 1), xs[n - 1])
    }
}

/// Fold `push_unseen` over the first `n` strings of `xs` that occur in
/// `options`.
pub open spec fn append_unseen_present(
    acc: Seq<String>,
    xs: Seq<String>,
    options: Seq<String>,
    n: int,
) -> Seq<String>
    decreases n,
{
    if n <= 0 {
        acc
    } else {
        let prev = append_unseen_present(acc, xs, options, n - 1);
        if contains_string(options, xs[n - 1]@) {
            push_unseen(prev, xs[n - 1])
        } else {
            prev
        }
    }
}

/// The full option list shown to the user: custom template names first,
/// then the remembered names that are still official, then every official
/// name — each string once, in first-appearance order.
pub open spec fn spec_options_list(options: Seq<String>, config: LignoreConfig) -> Seq<String> {
    append_unseen(
        append_unseen_present(
            append_unseen(Seq::empty(), custom_names(config.custom@), config.custom@.len() as int),
            config.templates@,
            options,
            config.templates@.len() as int,
        ),
        options,
        options.len() as int,
    )
}

/// Build the option list shown to the user from the official templates and
/// the configuration: custom names first, then remembered-and-official
/// names, then the rest of the official names, without duplicates.
pub fn build_options_list(options: &Vec<String>, config: &LignoreConfig) -> (r: Vec<String>)
    ensures
        r@ == spec_options_list(options@, *config),
{
    let mut all: Vec<String> = Vec::new();

    let m = config.custom.len();
    let mut i: usize = 0;
    while i < m
        invariant
            i <= m,
            m == config.custom@.len(),
            all@ == append_unseen(Seq::empty(), custom_names(config.custom@), i as int),
        decreases m - i,
    {
        let name = &config.custom[i].name;
        proof {
            assert(custom_names(config.custom@)[i as int] == config.custom@[i as int].name);
        }
        if !list_contains_string(&all, name) {
            all.push(name.clone());
        }
        i += 1;
    }

    let t = config.templates.len();
    let mut i: usize = 0;
    while i < t
        invariant
            i <= t,
            t == config.templates@.len(),
            all@ == append_unseen_present(
                append_unseen(
                    Seq::empty(),
                    custom_names(config.custom@),
                    config.custom@.len() as int,
                ),
                config.templates@,
                options@,
                i as int,
            ),
        decreases t - i,
    {
        let template = &config.templates[i];
        if list_contains_string(options, template) && !list_contains_string(&all, template) {
            all.push(template.clone());
        }
        i += 1;
    }

    let o = options.len();
    let mut i: usize = 0;
    while i < o
        invariant
            i <= o,
            o == options@.len(),
            all@ == append_unseen(
                append_unseen_present(
                    append_unseen(
                        Seq::empty(),
                        custom_names(config.custom@),
                        config.custom@.len() as int,
                    ),
                    config.templates@,
                    options@,
                    config.templates@.len() as int,
                ),
                options@,
                i as int,
            ),
        decreases o - i,
    {
        let template = &options[i];
        if !list_contains_string(&all, template) {
            all.push(template.clone());
        }
        i += 1;
    }

    all
}

/// The remembered names that are still official, in their remembered
/// order.
pub open spec fn present_templates(
    templates: Seq<String>,
    options: Seq<String>,
    n: int,
) -> Seq<String>
    decreases n,
{
    if n <= 0 {
        Seq::empty()
    } else {
        let prev = present_templates(templates, options, n - 1);
        if contains_string(options, templates[n - 1]@) {
            prev.push(templates[n - 1])
        } else {
            prev
        }
    }
}

/// Build the initial pre-selection: the remembered names that are still
/// official, followed by every custom template name (custom templates
/// start checked).
pub fn build_previous_selection(options: &Vec<String>, config: &LignoreConfig) -> (r: Vec<String>)
    ensures
        r@ == present_templates(config.templates@, options@, config.templates@.len() as int)
            + custom_names(config.custom@),
{
    let mut previous: Vec<String> = Vec::new();

    let t = config.templates.len();
    let mut i: usize = 0;
    while i < t
        invariant
            i <= t,
            t == config.templates@.len(),
            previous@ == present_templates(config.templates@, options@, i as int),
        decreases t - i,
    {
        let template = &config.templates[i];
        if list_contains_string(options, template) {
            previous.push(template.clone());
        }
        i += 1;
    }

    let ghost base = previous@;
    let m = config.custom.len();
    let mut j: usize = 0;
    while j < m
        invariant
            j <= m,
            m == config.custom@.len(),
            previous@.len() == base.len() + j,
            previous@.subrange(0, base.len() as int) == base,
            forall|k: int|
                0 <= k < j ==> previous@[base.len() + k] == (#[trigger] config.custom@[k]).name,
        decreases m - j,
    {
        previous.push(config.custom[j].name.clone());
        proof {
            assert(previous@.subrange(0, base.len() as int) =~= base);
        }
        j += 1;
    }
    proof {
        assert(previous@ =~= base + custom_names(config.custom@));
    }
    previous
}

/// The selected names that are not custom templates, in order.
pub open spec fn noncustom_selected(
    selected: Seq<String>,
    custom: Seq<CustomTemplate>,
    n: int,
) -> Seq<String>
    decreases n,
{
    if n <= 0 {
        Seq::empty()
    } else {
        let prev = noncustom_selected(selected, custom, n - 1);
        if has_custom(custom, selected[n - 1]@) {
            prev
        } else {
            prev.push(selected[n - 1])
        }
    }
}

/// Rewrite the remembered template list from a finished selection: only
/// the selected names that are not custom templates are remembered (custom
/// templates re-check themselves through their mere existence). The caller
/// persists the updated configuration.
pub fn update_and_save_config(config: &mut LignoreConfig, selected: &Vec<String>)
    ensures
        final(config).custom == old(config).custom,
        final(config).templates@ == noncustom_selected(
            selected@,
            old(config).custom@,
            selected@.len() as int,
        ),
{
    let n = selected.len();
    let mut remembered: Vec<String> = Vec::new();
    let mut i: usize = 0;
    while i < n
        invariant
            i <= n,
            n == selected@.len(),
            config == old(config),
            remembered@ == noncustom_selected(selected@, old(config).custom@, i as int),
        decreases n - i,
    {
        let name = &selected[i];
        if !config.has_custom_named(name) {
            remembered.push(name.clone());
        }
        i += 1;
    }
    config.templates = remembered;
}

} // verus!
