//! General-purpose I/O pins: the pin descriptors of a configuration, and the
//! lookup of named pins.
//!
//! A pin is described in the configuration by a string of `/`-separated
//! fields: the pin number, the pin type (`input` or `output`), and an
//! optional setting (`pullup`/`pulldown` for inputs, `low`/`high` for
//! outputs).

use vstd::prelude::*;
use vstd::string::*;
use crate::resource::{find_last, lookup_last};
use crate::text::{chars_of, join_fields, lemma_split_concat, lemma_split_free, lemma_split_join, lemma_split_nonempty, split_chars, split_seq, string_from_chars};

verus! {

/// Directions that internal resistors can be configured to pull a floating wire.
#[derive(Debug, Clone, Copy, PartialEq, Eq, Structural)]
pub enum Pull {
    Up,
    Down,
}

/// The logic level of a pin.
#[derive(Debug, Clone, Copy, PartialEq, Eq, Structural)]
pub enum LogicLevel {
    Low,
    High,
}

/// Errors of the GPIO interface.
#[derive(Debug)]
pub enum GpioError {
    /// A pin was used in a way its configuration does not allow.
    PinUsageError(String),
    /// A pin descriptor could not be understood.
    ConfigurationError(String),
    /// The hardware refused to provide a pin.
    HardwareError(String),
}

impl GpioError {
    /// An identical copy of this error.
    pub fn duplicate(&self) -> (r: GpioError)
        ensures
            r == *self,
    {
        match self {
            GpioError::PinUsageError(m) => GpioError::PinUsageError(m.clone()),
            GpioError::ConfigurationError(m) => GpioError::ConfigurationError(m.clone()),
            GpioError::HardwareError(m) => GpioError::HardwareError(m.clone()),
        }
    }
}

/// What a pin descriptor asks the GPIO implementation to construct.
#[derive(Debug, Clone, Copy, PartialEq, Eq, Structural)]
pub enum PinConfig {
    /// An input pin, with an optional pull setting.
    Input { pin: u8, pull: Option<Pull> },
    /// An output pin, with an optional initial level.
    Output { pin: u8, init_level: Option<LogicLevel> },
}

/// Whether `c` is an ASCII decimal digit.
pub open spec fn is_decimal_digit(c: char) -> bool {
    '0' <= c && c <= '9'
}

/// The value of a sequence of decimal digits.
pub open spec fn digits_value(ds: Seq<char>) -> nat
    decreases ds.len(),
{
    if ds.len() == 0 {
        0
    } else {
        digits_value(ds.drop_last()) * 10 + ((ds.last() as u32) - ('0' as u32)) as nat
    }
}

/// The digits of a decimal integer, after an optional leading `+`.
pub open spec fn unsigned_digits(s: Seq<char>) -> Seq<char> {
    if s.len() > 0 && s[0] == '+' {
        s.skip(1)
    } else {
        s
    }
}

/// The `u8` that `s` denotes in decimal: an optional `+` followed by at
/// least one digit and nothing else, of a value that fits in a `u8`.
pub open spec fn decimal_u8(s: Seq<char>) -> Option<u8> {
    let ds = unsigned_digits(s);
    if ds.len() > 0 && (forall|i: int| 0 <= i < ds.len() ==> is_decimal_digit(#[trigger] ds[i]))
        && digits_value(ds) <= 255 {
        Some(digits_value(ds) as u8)
    } else {
        None
    }
}

/// The text of the error that parsing `s` as a `u8` reports.
pub uninterp spec fn int_error_text(s: Seq<char>) -> Seq<char>;

/// Parses `s` as a decimal `u8` (`u8::from_str`), rendering a failure as the
/// text of its error. The standard library documents the accepted form: an
/// optional `+` sign followed by only digits, of a value in range. Of the
/// error text only its name `int_error_text` is stated.
#[verifier::external_body]
fn parse_u8(s: &str) -> (r: Result<u8, String>)
    ensures
        match r {
            Ok(v) => decimal_u8(s@) == Some(v),
            Err(m) => decimal_u8(s@) is None && m@ == int_error_text(s@),
        },
{
    match s.parse::<u8>() {
        Ok(v) => Ok(v),
        Err(e) => Err(e.to_string()),
    }
}

/// The outcome of parsing a pin descriptor: the pin to construct, or the
/// message of the configuration error.
pub open spec fn pin_config_of(config: Seq<char>) -> Result<PinConfig, Seq<char>> {
    let fields = split_seq(config, '/');
    let number = fields[0];
    match decimal_u8(number) {
        None => Err("invalid pin number '"@ + number + "': "@ + int_error_text(number)),
        Some(pin) => {
            if fields.len() < 2 {
                Err("no pin type"@)
            } else if fields[1] == "input"@ {
                if fields.len() >= 3 && fields[2] != "pullup"@ && fields[2] != "pulldown"@ {
                    Err("unknown pull setting '"@ + fields[2] + "'"@)
                } else if fields.len() >= 4 {
                    Err("too many fields for input pin"@)
                } else {
                    Ok(
                        PinConfig::Input {
                            pin,
                            pull: if fields.len() < 3 {
                                None
                            } else if fields[2] == "pullup"@ {
                                Some(Pull::Up)
                            } else {
                                Some(Pull::Down)
                            },
                        },
                    )
                }
            } else if fields[1] == "output"@ {
                if fields.len() >= 3 && fields[2] != "low"@ && fields[2] != "high"@ {
                    Err("unknown initial level '"@ + fields[2] + "'"@)
                } else if fields.len() >= 4 {
                    Err("too many fields for output pin"@)
                } else {
                    Ok(
                        PinConfig::Output {
                            pin,
                            init_level: if fields.len() < 3 {
                                None
                            } else if fields[2] == "low"@ {
                                Some(LogicLevel::Low)
                            } else {
                                Some(LogicLevel::High)
                            },
                        },
                    )
                }
            } else {
                Err("unknown pin type '"@ + fields[1] + "'"@)
            }
        },
    }
}

/// Whether an executable outcome is the specified one: the same pin, or a
/// configuration error with the same message.
pub open spec fn is_outcome(r: Result<PinConfig, GpioError>, spec: Result<PinConfig, Seq<char>>) -> bool {
    match (r, spec) {
        (Ok(p), Ok(q)) => p == q,
        (Err(GpioError::ConfigurationError(m)), Err(t)) => m@ == t,
        _ => false,
    }
}

fn same_chars(v: &Vec<char>, lit: &str) -> (r: bool)
    ensures
        r == (v@ == lit@),
{
    let w = chars_of(lit);
    if v.len() != w.len() {
        return false;
    }
    let mut i: usize = 0;
    while i < v.len()
        invariant
            v.len() == w.len(),
            w@ == lit@,
            i <= v.len(),
            forall|j: int| 0 <= j < i ==> v@[j] == w@[j],
        decreases v.len() - i,
    {
        if v[i] != w[i] {
            return false;
        }
        i = i + 1;
    }
    assert(v@ =~= w@);
    true
}

fn config_error(prefix: &str, field: &Vec<char>, suffix: &str) -> (r: GpioError)
    ensures
        r == GpioError::ConfigurationError(r->ConfigurationError_0),
        r->ConfigurationError_0@ == prefix@ + field@ + suffix@,
{
    let f = string_from_chars(field);
    let m = String::from_str(prefix).concat(f.as_str()).concat(suffix);
    GpioError::ConfigurationError(m)
}

fn fixed_error(text: &str) -> (r: GpioError)
    ensures
        r == GpioError::ConfigurationError(r->ConfigurationError_0),
        r->ConfigurationError_0@ == text@,
{
    GpioError::ConfigurationError(String::from_str(text))
}

/// Parses a pin descriptor into the pin it asks for.
pub fn parse_pin_config(config: &str) -> (r: Result<PinConfig, GpioError>)
    ensures
        is_outcome(r, pin_config_of(config@)),
{
    let cs = chars_of(config);
    let fields = split_chars(&cs, '/');
    proof {
        lemma_split_nonempty(config@, '/');
        assert(fields[0]@ =~= fields.deep_view()[0]);
    }
    let number = string_from_chars(&fields[0]);
    let pin = match parse_u8(number.as_str()) {
        Ok(v) => v,
        Err(e) => {
            let m = String::from_str("invalid pin number '").concat(number.as_str()).concat(
                "': ",
            ).concat(e.as_str());
            return Err(GpioError::ConfigurationError(m));
        },
    };
    if fields.len() < 2 {
        return Err(fixed_error("no pin type"));
    }
    assert(fields[1]@ =~= fields.deep_view()[1]);
    if same_chars(&fields[1], "input") {
        let mut pull: Option<Pull> = None;
        if fields.len() >= 3 {
            assert(fields[2]@ =~= fields.deep_view()[2]);
            if same_chars(&fields[2], "pullup") {
                pull = Some(Pull::Up);
            } else if same_chars(&fields[2], "pulldown") {
                pull = Some(Pull::Down);
            } else {
                return Err(config_error("unknown pull setting '", &fields[2], "'"));
            }
        }
        if fields.len() >= 4 {
            return Err(fixed_error("too many fields for input pin"));
        }
        Ok(PinConfig::Input { pin, pull })
    } else if same_chars(&fields[1], "output") {
        let mut init_level: Option<LogicLevel> = None;
        if fields.len() >= 3 {
            assert(fields[2]@ =~= fields.deep_view()[2]);
            if same_chars(&fields[2], "low") {
                init_level = Some(LogicLevel::Low);
            } else if same_chars(&fields[2], "high") {
                init_level = Some(LogicLevel::High);
            } else {
                return Err(config_error("unknown initial level '", &fields[2], "'"));
            }
        }
        if fields.len() >= 4 {
            return Err(fixed_error("too many fields for output pin"));
        }
        Ok(PinConfig::Output { pin, init_level })
    } else {
        Err(config_error("unknown pin type '", &fields[1], "'"))
    }
}

/// An implementation of an input pin resource.
pub trait InputPinImplementor {
    /// Reads the current logic level of the pin.
    fn read(&self) -> LogicLevel;
}

/// An implementation of an output pin resource.
pub trait OutputPinImplementor {
    /// Writes the given logic level to the pin.
    fn write(&self, level: LogicLevel);
}

/// The entry that a list of named pins holds for `name`: the last one with
/// that name, as collecting the list into a map keeps it.
pub open spec fn named_entry(
    pins: Seq<(String, Result<PinConfig, GpioError>)>,
    name: Seq<char>,
) -> Option<Result<PinConfig, GpioError>> {
    lookup_last(pins, name)
}

/// The kind of pin a lookup asks for.
pub enum PinDirection {
    Input,
    Output,
}

/// Whether `p` is a pin of direction `dir`.
pub open spec fn has_direction(p: PinConfig, dir: PinDirection) -> bool {
    match (p, dir) {
        (PinConfig::Input { .. }, PinDirection::Input) => true,
        (PinConfig::Output { .. }, PinDirection::Output) => true,
        _ => false,
    }
}

/// The end of the message that reports a pin of the other direction.
pub open spec fn wrong_direction_tail(dir: PinDirection) -> Seq<char> {
    match dir {
        PinDirection::Input => "' is not an input pin"@,
        PinDirection::Output => "' is not an output pin"@,
    }
}

/// Whether `r` is what looking up `name` as a pin of direction `dir` gives:
/// the pin when it has that direction, the stored error when its
/// descriptor was refused, and a usage error otherwise.
pub open spec fn is_lookup_result(
    pins: Seq<(String, Result<PinConfig, GpioError>)>,
    name: Seq<char>,
    dir: PinDirection,
    r: Result<PinConfig, GpioError>,
) -> bool {
    match named_entry(pins, name) {
        None => r matches Err(GpioError::PinUsageError(m)) && m@ == usage_message(
            name,
            "' is not a named pin"@,
        ),
        Some(Err(e)) => r == Err::<PinConfig, GpioError>(e),
        Some(Ok(p)) => if has_direction(p, dir) {
            r == Ok::<PinConfig, GpioError>(p)
        } else {
            r matches Err(GpioError::PinUsageError(m)) && m@ == usage_message(
                name,
                wrong_direction_tail(dir),
            )
        },
    }
}

/// The message of a usage error about `name`: the name in quotes, followed
/// by `tail`, which starts with the closing quote.
pub open spec fn usage_message(name: Seq<char>, tail: Seq<char>) -> Seq<char> {
    "'"@ + name + tail
}

/// The named pins of a configuration, each with the outcome of parsing its
/// descriptor.
pub struct Gpio {
    pins: Vec<(String, Result<PinConfig, GpioError>)>,
}

impl Gpio {
    /// The named pins with their parse outcomes, in configuration order.
    pub closed spec fn entries(&self) -> Seq<(String, Result<PinConfig, GpioError>)> {
        self.pins@
    }

    /// Parses the descriptor of every named pin of the configuration; no
    /// configuration gives no pins.
    pub fn new(configs_map: Option<Vec<(String, String)>>) -> (r: Gpio)
        ensures
            configs_map is None ==> r.entries().len() == 0,
            configs_map matches Some(configs) ==> {
                &&& r.entries().len() == configs.len()
                &&& forall|i: int|
                    0 <= i < configs.len() ==> {
                        &&& (#[trigger] r.entries()[i]).0 == configs[i].0
                        &&& is_outcome(r.entries()[i].1, pin_config_of(configs[i].1@))
                    }
            },
    {
        let mut pins: Vec<(String, Result<PinConfig, GpioError>)> = Vec::new();
        match configs_map {
            None => Gpio { pins },
            Some(configs) => {
                let mut i: usize = 0;
                while i < configs.len()
                    invariant
                        i <= configs.len(),
                        pins.len() == i,
                        forall|k: int|
                            0 <= k < i ==> {
                                &&& (#[trigger] pins@[k]).0 == configs@[k].0
                                &&& is_outcome(pins@[k].1, pin_config_of(configs@[k].1@))
                            },
                    decreases configs.len() - i,
                {
                    let name = configs[i].0.clone();
                    let parsed = parse_pin_config(configs[i].1.as_str());
                    pins.push((name, parsed));
                    i = i + 1;
                }
                Gpio { pins }
            },
        }
    }

    fn get_named(&self, name: &str, dir: PinDirection) -> (r: Result<PinConfig, GpioError>)
        ensures
            is_lookup_result(self.entries(), name@, dir, r),
    {
        match find_last(&self.pins, name) {
            None => {
                let m = String::from_str("'").concat(name).concat("' is not a named pin");
                Err(GpioError::PinUsageError(m))
            },
            Some(i) => match &self.pins[i].1 {
                Err(e) => Err(e.duplicate()),
                Ok(p) => {
                    let p = *p;
                    match (p, dir) {
                        (PinConfig::Input { .. }, PinDirection::Input) => Ok(p),
                        (PinConfig::Output { .. }, PinDirection::Output) => Ok(p),
                        (_, PinDirection::Input) => {
                            let m = String::from_str("'").concat(name).concat("' is not an input pin");
                            Err(GpioError::PinUsageError(m))
                        },
                        (_, PinDirection::Output) => {
                            let m = String::from_str("'").concat(name).concat("' is not an output pin");
                            Err(GpioError::PinUsageError(m))
                        },
                    }
                },
            },
        }
    }

    /// The input pin named `name`.
    pub fn input_pin_get_named(&self, name: &str) -> (r: Result<PinConfig, GpioError>)
        ensures
            is_lookup_result(self.entries(), name@, PinDirection::Input, r),
    {
        self.get_named(name, PinDirection::Input)
    }

    /// The output pin named `name`.
    pub fn output_pin_get_named(&self, name: &str) -> (r: Result<PinConfig, GpioError>)
        ensures
            is_lookup_result(self.entries(), name@, PinDirection::Output, r),
    {
        self.get_named(name, PinDirection::Output)
    }
}

/// After a configuration is read, the pin named `name` is the one parsed
/// from the last descriptor configured under that name, and a name that no
/// descriptor was configured under names no pin.
pub proof fn lemma_named_pin_is_last_config(
    entries: Seq<(String, Result<PinConfig, GpioError>)>,
    configs: Seq<(String, String)>,
    name: Seq<char>,
)
    requires
        entries.len() == configs.len(),
        forall|i: int|
            0 <= i < configs.len() ==> {
                &&& (#[trigger] entries[i]).0 == configs[i].0
                &&& is_outcome(entries[i].1, pin_config_of(configs[i].1@))
            },
    ensures
        match lookup_last(configs, name) {
            None => named_entry(entries, name) is None,
            Some(d) => (named_entry(entries, name) matches Some(r) && is_outcome(
                r,
                pin_config_of(d@),
            )),
        },
    decreases configs.len(),
{
    if configs.len() > 0 {
        let n = configs.len() - 1;
        assert(entries[n].0 == configs[n].0);
        assert forall|i: int| 0 <= i < configs.drop_last().len() implies {
            &&& (#[trigger] entries.drop_last()[i]).0 == configs.drop_last()[i].0
            &&& is_outcome(entries.drop_last()[i].1, pin_config_of(configs.drop_last()[i].1@))
        } by {
            assert(entries.drop_last()[i] == entries[i]);
            assert(configs.drop_last()[i] == configs[i]);
        }
        lemma_named_pin_is_last_config(entries.drop_last(), configs.drop_last(), name);
    }
}

/// The tails of the six shapes of an accepted pin descriptor.
pub open spec fn pin_tail(t: Seq<char>) -> bool {
    ||| t == "/input"@
    ||| t == "/input/pullup"@
    ||| t == "/input/pulldown"@
    ||| t == "/output"@
    ||| t == "/output/low"@
    ||| t == "/output/high"@
}

proof fn lemma_number_free_of_slash(n: Seq<char>)
    requires
        decimal_u8(n) is Some,
    ensures
        forall|i: int| 0 <= i < n.len() ==> n[i] != '/',
{
    let ds = unsigned_digits(n);
    assert forall|i: int| 0 <= i < n.len() implies n[i] != '/' by {
        if n.len() > 0 && n[0] == '+' {
            if i > 0 {
                assert(n[i] == ds[i - 1]);
                assert(is_decimal_digit(ds[i - 1]));
            }
        } else {
            assert(n[i] == ds[i]);
            assert(is_decimal_digit(ds[i]));
        }
    }
}

proof fn lemma_two_fields(n: Seq<char>, a: Seq<char>)
    requires
        forall|i: int| 0 <= i < n.len() ==> n[i] != '/',
        forall|i: int| 0 <= i < a.len() ==> a[i] != '/',
    ensures
        split_seq(n + seq!['/'] + a, '/') == seq![n, a],
{
    lemma_split_concat(n, a, '/');
    lemma_split_free(n, '/');
    lemma_split_free(a, '/');
    assert(seq![n] + seq![a] =~= seq![n, a]);
}

proof fn lemma_three_fields(n: Seq<char>, a: Seq<char>, b: Seq<char>)
    requires
        forall|i: int| 0 <= i < n.len() ==> n[i] != '/',
        forall|i: int| 0 <= i < a.len() ==> a[i] != '/',
        forall|i: int| 0 <= i < b.len() ==> b[i] != '/',
    ensures
        split_seq(n + seq!['/'] + a + seq!['/'] + b, '/') == seq![n, a, b],
{
    lemma_split_concat(n, a + seq!['/'] + b, '/');
    lemma_two_fields(a, b);
    lemma_split_free(n, '/');
    assert(n + seq!['/'] + a + seq!['/'] + b =~= n + seq!['/'] + (a + seq!['/'] + b));
    assert(seq![n] + seq![a, b] =~= seq![n, a, b]);
}

proof fn lemma_literals()
    ensures
        "input"@.len() == 5 && "input"@[0] == 'i',
        "output"@.len() == 6 && "output"@[0] == 'o',
        "/input"@ == seq!['/'] + "input"@,
        "/output"@ == seq!['/'] + "output"@,
        "/input/pullup"@ == seq!['/'] + "input"@ + seq!['/'] + "pullup"@,
        "/input/pulldown"@ == seq!['/'] + "input"@ + seq!['/'] + "pulldown"@,
        "/output/low"@ == seq!['/'] + "output"@ + seq!['/'] + "low"@,
        "/output/high"@ == seq!['/'] + "output"@ + seq!['/'] + "high"@,
        forall|i: int| 0 <= i < "input"@.len() ==> "input"@[i] != '/',
        forall|i: int| 0 <= i < "output"@.len() ==> "output"@[i] != '/',
        forall|i: int| 0 <= i < "pullup"@.len() ==> "pullup"@[i] != '/',
        forall|i: int| 0 <= i < "pulldown"@.len() ==> "pulldown"@[i] != '/',
        forall|i: int| 0 <= i < "low"@.len() ==> "low"@[i] != '/',
        forall|i: int| 0 <= i < "high"@.len() ==> "high"@[i] != '/',
        "pullup"@ != "pulldown"@,
        "low"@ != "high"@,
        "input"@ != "output"@,
{
    reveal_strlit("input");
    reveal_strlit("output");
    reveal_strlit("pullup");
    reveal_strlit("pulldown");
    reveal_strlit("low");
    reveal_strlit("high");
    reveal_strlit("/input");
    reveal_strlit("/input/pullup");
    reveal_strlit("/input/pulldown");
    reveal_strlit("/output");
    reveal_strlit("/output/low");
    reveal_strlit("/output/high");
    assert("/input"@ =~= seq!['/'] + "input"@);
    assert("/output"@ =~= seq!['/'] + "output"@);
    assert("/input/pullup"@ =~= seq!['/'] + "input"@ + seq!['/'] + "pullup"@);
    assert("/input/pulldown"@ =~= seq!['/'] + "input"@ + seq!['/'] + "pulldown"@);
    assert("/output/low"@ =~= seq!['/'] + "output"@ + seq!['/'] + "low"@);
    assert("/output/high"@ =~= seq!['/'] + "output"@ + seq!['/'] + "high"@);
    assert("pullup"@[4] != "pulldown"@[4]);
    assert("low"@.len() != "high"@.len());
}

proof fn lemma_accepted_has_shape(config: Seq<char>)
    requires
        pin_config_of(config) is Ok,
    ensures
        decimal_u8(split_seq(config, '/')[0]) is Some,
        config == split_seq(config, '/')[0] + config.skip(split_seq(config, '/')[0].len() as int),
        pin_tail(config.skip(split_seq(config, '/')[0].len() as int)),
{
    lemma_literals();
    let fields = split_seq(config, '/');
    let slash = seq!['/'];
    lemma_split_join(config, '/');
    lemma_split_nonempty(config, '/');
    let n = fields[0];
    assert(join_fields(seq![n], '/') == n);
    if fields.len() == 2 {
        assert(fields.drop_last() =~= seq![n]);
        assert(join_fields(fields, '/') == join_fields(fields.drop_last(), '/') + slash
            + fields.last());
        assert(config == n + slash + fields[1]);
        let t = config.skip(n.len() as int);
        assert(config =~= n + t);
        assert(t =~= slash + fields[1]);
    } else {
        let f2 = fields.drop_last();
        assert(f2.drop_last() =~= seq![n]);
        assert(f2.last() == fields[1]);
        assert(join_fields(f2, '/') == join_fields(f2.drop_last(), '/') + slash + f2.last());
        assert(join_fields(fields, '/') == join_fields(f2, '/') + slash + fields.last());
        assert(config == n + slash + fields[1] + slash + fields[2]);
        let t = config.skip(n.len() as int);
        assert(config =~= n + t);
        assert(t =~= slash + fields[1] + slash + fields[2]);
    }
}

proof fn lemma_two_shape_accepted(n: Seq<char>, a: Seq<char>)
    requires
        decimal_u8(n) is Some,
        a == "input"@ || a == "output"@,
    ensures
        pin_config_of(n + seq!['/'] + a) is Ok,
{
    lemma_literals();
    lemma_number_free_of_slash(n);
    lemma_two_fields(n, a);
}

proof fn lemma_three_shape_accepted(n: Seq<char>, a: Seq<char>, b: Seq<char>)
    requires
        decimal_u8(n) is Some,
        (a == "input"@ && (b == "pullup"@ || b == "pulldown"@)) || (a == "output"@ && (b == "low"@
            || b == "high"@)),
    ensures
        pin_config_of(n + seq!['/'] + a + seq!['/'] + b) is Ok,
{
    lemma_literals();
    lemma_number_free_of_slash(n);
    lemma_three_fields(n, a, b);
}

/// A pin descriptor is accepted exactly when it is a pin number that
/// `u8::from_str` accepts followed by one of the six shapes `/input`,
/// `/input/pullup`, `/input/pulldown`, `/output`, `/output/low` or
/// `/output/high`; every other descriptor is a configuration error.
pub proof fn lemma_accepted_descriptors(config: Seq<char>)
    ensures
        pin_config_of(config) is Ok <==> exists|n: Seq<char>, t: Seq<char>|
            #![trigger n + t]
            config == n + t && decimal_u8(n) is Some && pin_tail(t),
{
    if pin_config_of(config) is Ok {
        lemma_accepted_has_shape(config);
        let n = split_seq(config, '/')[0];
        let t = config.skip(n.len() as int);
        assert(config == n + t && decimal_u8(n) is Some && pin_tail(t));
    }
    assert forall|n: Seq<char>, t: Seq<char>|
        #![trigger n + t]
        config == n + t && decimal_u8(n) is Some && pin_tail(t) implies pin_config_of(config) is Ok by {
        lemma_literals();
        let slash = seq!['/'];
        if t == "/input"@ || t == "/output"@ {
            let a = if t == "/input"@ { "input"@ } else { "output"@ };
            assert(config =~= n + slash + a);
            lemma_two_shape_accepted(n, a);
        } else {
            let a = if t == "/input/pullup"@ || t == "/input/pulldown"@ { "input"@ } else { "output"@ };
            let b = if t == "/input/pullup"@ {
                "pullup"@
            } else if t == "/input/pulldown"@ {
                "pulldown"@
            } else if t == "/output/low"@ {
                "low"@
            } else {
                "high"@
            };
            assert(config =~= n + slash + a + slash + b);
            lemma_three_shape_accepted(n, a, b);
        }
    }
}

} // verus!
