use vstd::prelude::*;

verus! {

/// Application configuration assembled from environment values.
#[derive(Debug)]
pub struct Config {
    /// Port for the RPC service to listen on.
    pub grpc_port: u16,
    /// Port for the metrics export endpoint.
    pub metrics_port: u16,
    /// Logging level (for example "info" or "debug").
    pub rust_log: String,
    /// Address of the captioning side-channel service.
    pub cc_service_addr: String,
}

impl Clone for Config {
    fn clone(&self) -> (r: Self)
        ensures
            r == *self,
    {
        Config {
            grpc_port: self.grpc_port,
            metrics_port: self.metrics_port,
            rust_log: self.rust_log.clone(),
            cc_service_addr: self.cc_service_addr.clone(),
        }
    }
}

/// Errors that can occur while the configuration is validated.
#[derive(Debug)]
pub enum ConfigError {
    /// A required environment variable is missing; holds the variable name.
    MissingVariable(String),
    /// A port value could not be parsed as a 16-bit integer; holds the
    /// variable name.
    InvalidPort(String),
    /// The RPC port was zero, which is not a usable listening port.
    PortOutOfRange(u16),
}

/// True when `c` is a decimal digit.
pub open spec fn is_digit_char(c: char) -> bool {
    48 <= c as u32 <= 57
}

/// The numeric value of a decimal digit character.
pub open spec fn digit_of(c: char) -> nat {
    (c as u32 - 48) as nat
}

/// True when every character of `s` is a decimal digit.
pub open spec fn all_digits(s: Seq<char>) -> bool {
    forall|i: int| 0 <= i < s.len() ==> is_digit_char(#[trigger] s[i])
}

/// The value of `s` read as a decimal numeral.
pub open spec fn digits_value(s: Seq<char>) -> nat
    decreases s.len(),
{
    if s.len() == 0 {
        0
    } else {
        digits_value(s.drop_last()) * 10 + digit_of(s.last())
    }
}

/// The digits of a port numeral: the text with one optional leading plus
/// sign stripped, as the standard unsigned-integer grammar reads it.
pub open spec fn port_digits(s: Seq<char>) -> Seq<char> {
    if s.len() > 0 && s[0] == '+' {
        s.drop_first()
    } else {
        s
    }
}

/// True when `s` is a decimal numeral (optionally `+`-prefixed) whose value
/// fits a port.
pub open spec fn parses_as_port(s: Seq<char>) -> bool {
    &&& port_digits(s).len() > 0
    &&& all_digits(port_digits(s))
    &&& digits_value(port_digits(s)) <= 65535
}

proof fn lemma_digits_value_prefix_le(s: Seq<char>, i: int)
    requires
        all_digits(s),
        0 <= i <= s.len(),
    ensures
        digits_value(s.subrange(0, i)) <= digits_value(s),
    decreases s.len() - i,
{
    if i < s.len() {
        assert(s.subrange(0, i + 1).drop_last() =~= s.subrange(0, i));
        assert(s.subrange(0, i + 1).last() == s[i]);
        lemma_digits_value_prefix_le(s, i + 1);
    } else {
        assert(s.subrange(0, i) =~= s);
    }
}

/// Parses a decimal port numeral, accepting one optional leading plus sign
/// as the standard unsigned-integer grammar does. Returns the value exactly
/// when the digits denote a number at most 65535.
pub fn parse_port_text(s: &str) -> (r: Option<u16>)
    ensures
        r is Some <==> parses_as_port(s@),
        r matches Some(v) ==> v as nat == digits_value(port_digits(s@)),
{
    let n = s.unicode_len();
    if n == 0 {
        return None;
    }
    let first = s.get_char(0);
    let start: usize = if first == '+' {
        1
    } else {
        0
    };
    proof {
        assert(port_digits(s@) =~= s@.subrange(start as int, n as int));
    }
    if start == n {
        return None;
    }
    let mut value: u32 = 0;
    let mut i: usize = start;
    while i < n
        invariant
            0 < n == s@.len(),
            start <= i <= n,
            start <= 1,
            port_digits(s@) == s@.subrange(start as int, n as int),
            forall|j: int| start <= j < i ==> is_digit_char(#[trigger] s@[j]),
            value as nat == digits_value(s@.subrange(start as int, i as int)),
            value <= 65535,
        decreases n - i,
    {
        let ghost pd = port_digits(s@);
        let c = s.get_char(i);
        let d = c as u32;
        if d < 48 || d > 57 {
            proof {
                assert(!is_digit_char(s@[i as int]));
                assert(pd[i - start as int] == s@[i as int]);
            }
            return None;
        }
        proof {
            assert(s@.subrange(start as int, i + 1).drop_last() =~= s@.subrange(
                start as int,
                i as int,
            ));
            assert(s@.subrange(start as int, i + 1).last() == s@[i as int]);
        }
        let next = value * 10 + (d - 48);
        if next > 65535 {
            proof {
                if all_digits(pd) {
                    assert(pd.subrange(0, i + 1 - start as int) =~= s@.subrange(
                        start as int,
                        i + 1,
                    ));
                    lemma_digits_value_prefix_le(pd, i + 1 - start as int);
                }
            }
            return None;
        }
        value = next;
        i = i + 1;
    }
    proof {
        assert(s@.subrange(start as int, n as int) =~= port_digits(s@));
        assert forall|j: int| 0 <= j < port_digits(s@).len() implies is_digit_char(
            #[trigger] port_digits(s@)[j],
        ) by {
            assert(port_digits(s@)[j] == s@[j + start as int]);
        }
    }
    Some(value as u16)
}

/// The character of one decimal digit.
pub open spec fn digit_char(d: nat) -> char {
    if d == 0 {
        '0'
    } else if d == 1 {
        '1'
    } else if d == 2 {
        '2'
    } else if d == 3 {
        '3'
    } else if d == 4 {
        '4'
    } else if d == 5 {
        '5'
    } else if d == 6 {
        '6'
    } else if d == 7 {
        '7'
    } else if d == 8 {
        '8'
    } else {
        '9'
    }
}

/// The shortest decimal numeral for `n`, most significant digit first.
pub open spec fn decimal_text(n: nat) -> Seq<char>
    decreases n,
{
    if n < 10 {
        seq![digit_char(n)]
    } else {
        decimal_text(n / 10).push(digit_char(n % 10))
    }
}

fn digit_text(d: u16) -> (r: &'static str)
    requires
        d <= 9,
    ensures
        r@ == seq![digit_char(d as nat)],
{
    proof {
        reveal_strlit("0");
        reveal_strlit("1");
        reveal_strlit("2");
        reveal_strlit("3");
        reveal_strlit("4");
        reveal_strlit("5");
        reveal_strlit("6");
        reveal_strlit("7");
        reveal_strlit("8");
        reveal_strlit("9");
    }
    match d {
        0 => "0",
        1 => "1",
        2 => "2",
        3 => "3",
        4 => "4",
        5 => "5",
        6 => "6",
        7 => "7",
        8 => "8",
        _ => "9",
    }
}

/// Writes `n` as its shortest decimal numeral.
pub fn u16_to_text(n: u16) -> (r: String)
    ensures
        r@ == decimal_text(n as nat),
    decreases n,
{
    if n < 10 {
        String::from_str(digit_text(n))
    } else {
        let prefix = u16_to_text(n / 10);
        let r = prefix.concat(digit_text(n % 10));
        proof {
            assert(decimal_text((n / 10) as nat) + seq![digit_char((n % 10) as nat)]
                =~= decimal_text((n / 10) as nat).push(digit_char((n % 10) as nat)));
        }
        r
    }
}

proof fn lemma_digit_char_value(d: nat)
    requires
        d <= 9,
    ensures
        is_digit_char(digit_char(d)),
        digit_of(digit_char(d)) == d,
{
}

/// Formatting and parsing agree: the decimal numeral of `n` is all digits
/// and reads back as `n`.
pub proof fn lemma_decimal_text_value(n: nat)
    ensures
        all_digits(decimal_text(n)),
        decimal_text(n).len() >= 1,
        digits_value(decimal_text(n)) == n,
    decreases n,
{
    if n < 10 {
        lemma_digit_char_value(n);
        let t = decimal_text(n);
        assert(t.drop_last() =~= Seq::<char>::empty());
        assert(t.last() == digit_char(n));
        assert(digits_value(t) == digits_value(t.drop_last()) * 10 + digit_of(t.last()));
        assert(digits_value(Seq::<char>::empty()) == 0);
    } else {
        lemma_decimal_text_value(n / 10);
        lemma_digit_char_value(n % 10);
        let t = decimal_text(n);
        assert(t.drop_last() =~= decimal_text(n / 10));
        assert(t.last() == digit_char(n % 10));
        assert(digits_value(t) == digits_value(t.drop_last()) * 10 + digit_of(t.last()));
        assert(digits_value(t) == (n / 10) * 10 + (n % 10));
        assert(n == (n / 10) * 10 + (n % 10)) by (nonlinear_arith);
        assert forall|i: int| 0 <= i < t.len() implies is_digit_char(#[trigger] t[i]) by {
            if i < t.len() - 1 {
                assert(t[i] == decimal_text(n / 10)[i]);
            }
        }
    }
}

impl ConfigError {
    /// The explanatory message carried back to the caller.
    pub fn message(&self) -> (r: String)
        ensures
            match self {
                ConfigError::MissingVariable(v) => r@ == v@ + " is required"@,
                ConfigError::InvalidPort(v) => r@ == v@ + " must be a valid port number"@,
                ConfigError::PortOutOfRange(p) => r@ == "GRPC_PORT must be between 1 and 65535 (got "@
                    + decimal_text(p as nat) + ")"@,
            },
    {
        match self {
            ConfigError::MissingVariable(v) => v.clone().concat(" is required"),
            ConfigError::InvalidPort(v) => v.clone().concat(" must be a valid port number"),
            ConfigError::PortOutOfRange(p) => {
                let digits = u16_to_text(*p);
                String::from_str("GRPC_PORT must be between 1 and 65535 (got ").concat(
                    digits.as_str(),
                ).concat(")")
            },
        }
    }
}

/// What a successful validation returns for the given environment values.
pub open spec fn config_ok_spec(
    grpc: Seq<char>,
    metrics_port: Option<String>,
    rust_log: Option<String>,
    cc_service_addr: Option<String>,
    c: Config,
) -> bool {
    &&& c.grpc_port as nat == digits_value(port_digits(grpc))
    &&& c.metrics_port as nat == (match metrics_port {
        Some(m) => digits_value(port_digits(m@)),
        None => 3030,
    })
    &&& c.rust_log@ == (match rust_log {
        Some(l) => l@,
        None => "info"@,
    })
    &&& c.cc_service_addr@ == (match cc_service_addr {
        Some(a) => a@,
        None => "http://localhost:50051"@,
    })
}

/// The full behaviour of `validate_env` on the given environment values.
pub open spec fn validate_env_spec(
    grpc_port: Option<String>,
    metrics_port: Option<String>,
    rust_log: Option<String>,
    cc_service_addr: Option<String>,
    r: Result<Config, ConfigError>,
) -> bool {
    match grpc_port {
        None => r matches Err(ConfigError::MissingVariable(v)) && v@ == "GRPC_PORT"@,
        Some(g) => {
            if !parses_as_port(g@) {
                r matches Err(ConfigError::InvalidPort(v)) && v@ == "GRPC_PORT"@
            } else if digits_value(port_digits(g@)) == 0 {
                r matches Err(ConfigError::PortOutOfRange(p)) && p == 0
            } else {
                match metrics_port {
                    Some(m) => {
                        if !parses_as_port(m@) {
                            r matches Err(ConfigError::InvalidPort(v)) && v@ == "METRICS_PORT"@
                        } else {
                            r matches Ok(c) && config_ok_spec(
                                g@,
                                metrics_port,
                                rust_log,
                                cc_service_addr,
                                c,
                            )
                        }
                    },
                    None => r matches Ok(c) && config_ok_spec(
                        g@,
                        metrics_port,
                        rust_log,
                        cc_service_addr,
                        c,
                    ),
                }
            }
        },
    }
}

/// Validates a snapshot of the environment and returns the configuration.
///
/// Each argument is the value of the corresponding environment variable, or
/// `None` where the variable is unset. The RPC port is required and must be a
/// decimal port number between 1 and 65535; the metrics port defaults to
/// 3030; the log level defaults to "info"; the captioning service address
/// defaults to "http://localhost:50051".
pub fn validate_env(
    grpc_port: Option<String>,
    metrics_port: Option<String>,
    rust_log: Option<String>,
    cc_service_addr: Option<String>,
) -> (r: Result<Config, ConfigError>)
    ensures
        validate_env_spec(grpc_port, metrics_port, rust_log, cc_service_addr, r),
{
    let grpc_text = match grpc_port {
        Some(g) => g,
        None => {
            return Err(ConfigError::MissingVariable(String::from_str("GRPC_PORT")));
        },
    };
    let grpc = match parse_port_text(grpc_text.as_str()) {
        Some(p) => p,
        None => {
            return Err(ConfigError::InvalidPort(String::from_str("GRPC_PORT")));
        },
    };
    if grpc == 0 {
        return Err(ConfigError::PortOutOfRange(grpc));
    }
    let rust_log_text = match rust_log {
        Some(l) => l,
        None => String::from_str("info"),
    };
    let cc_text = match cc_service_addr {
        Some(a) => a,
        None => String::from_str("http://localhost:50051"),
    };
    let metrics = match metrics_port {
        Some(m) => match parse_port_text(m.as_str()) {
            Some(p) => p,
            None => {
                return Err(ConfigError::InvalidPort(String::from_str("METRICS_PORT")));
            },
        },
        None => 3030,
    };
    Ok(Config {
        grpc_port: grpc,
        metrics_port: metrics,
        rust_log: rust_log_text,
        cc_service_addr: cc_text,
    })
}

} // verus!
