//! Commit message assembly: repeated `-m`/`--message` flags collect message
//! parts, joined with a blank line between them in the order given. Any
//! other flag is rejected, a flag without a value is rejected, and at least
//! one message is required.

use crate::strutil::str_eq;
use vstd::prelude::*;

verus! {

/// Why no message was assembled.
#[derive(Debug)]
pub enum MessageError {
    /// A `-m`/`--message` flag came last, with no value after it.
    MissingValue { flag: String },
    /// A flag other than `-m`/`--message` was given.
    UnsupportedFlag { flag: String },
    /// No message flag at all was given.
    NoMessage,
}

/// The mathematical content of a `MessageError`.
#[verifier::ext_equal]
pub ghost enum SpecMessageError {
    MissingValue { flag: Seq<char> },
    UnsupportedFlag { flag: Seq<char> },
    NoMessage,
}

impl View for MessageError {
    type V = SpecMessageError;

    open spec fn view(&self) -> SpecMessageError {
        match self {
            MessageError::MissingValue { flag } => SpecMessageError::MissingValue {
                flag: flag@,
            },
            MessageError::UnsupportedFlag { flag } => SpecMessageError::UnsupportedFlag {
                flag: flag@,
            },
            MessageError::NoMessage => SpecMessageError::NoMessage,
        }
    }
}

impl MessageError {
    /// The diagnostic for this failure.
    pub fn message(&self) -> (r: String)
        ensures
            self@ matches SpecMessageError::MissingValue { flag } ==> r@ == "Expected message after "@
                + flag,
            self@ matches SpecMessageError::UnsupportedFlag { flag } ==> r@
                == "Unsupported GitCommit flag: "@ + flag,
            self@ == SpecMessageError::NoMessage ==> r@ == "GitCommit requires -m/--message"@,
    {
        match self {
            MessageError::MissingValue { flag } => {
                let mut s = String::from_str("Expected message after ");
                s.append(flag.as_str());
                s
            },
            MessageError::UnsupportedFlag { flag } => {
                let mut s = String::from_str("Unsupported GitCommit flag: ");
                s.append(flag.as_str());
                s
            },
            MessageError::NoMessage => String::from_str("GitCommit requires -m/--message"),
        }
    }
}

/// The characters of `-m`.
pub open spec fn spec_m_flag() -> Seq<char> {
    seq!['-', 'm']
}

/// The characters of `--message`.
pub open spec fn spec_message_flag() -> Seq<char> {
    seq!['-', '-', 'm', 'e', 's', 's', 'a', 'g', 'e']
}

/// Collect the message values of the argument vector from position `i` on:
/// each `-m`/`--message` consumes the following argument as one message
/// part; any other flag is refused; non-flag arguments are ignored.
pub open spec fn spec_collect(args: Seq<Seq<char>>, i: int) -> Result<
    Seq<Seq<char>>,
    SpecMessageError,
>
    decreases args.len() - i,
{
    if i < 0 || i >= args.len() {
        Result::Ok(Seq::empty())
    } else if args[i] == spec_m_flag() || args[i] == spec_message_flag() {
        if i + 1 >= args.len() {
            Result::Err(SpecMessageError::MissingValue { flag: args[i] })
        } else {
            match spec_collect(args, i + 2) {
                Result::Ok(rest) => Result::Ok(seq![args[i + 1]] + rest),
                Result::Err(e) => Result::Err(e),
            }
        }
    } else if args[i].len() > 0 && args[i][0] == '-' {
        Result::Err(SpecMessageError::UnsupportedFlag { flag: args[i] })
    } else {
        spec_collect(args, i + 1)
    }
}

/// The message parts joined with one blank line between them, in order.
pub open spec fn spec_join(msgs: Seq<Seq<char>>) -> Seq<char>
    decreases msgs.len(),
{
    if msgs.len() == 0 {
        Seq::empty()
    } else if msgs.len() == 1 {
        msgs[0]
    } else {
        spec_join(msgs.drop_last()) + seq!['\n', '\n'] + msgs.last()
    }
}

/// The message of an argument vector (position 0 holds the applet name):
/// the collected parts joined with blank lines, or the first refusal, with
/// an empty collection refused as missing.
pub open spec fn spec_parse_commit_message(args: Seq<Seq<char>>) -> Result<
    Seq<char>,
    SpecMessageError,
> {
    match spec_collect(args, 1) {
        Result::Err(e) => Result::Err(e),
        Result::Ok(msgs) => if msgs.len() == 0 {
            Result::Err(SpecMessageError::NoMessage)
        } else {
            Result::Ok(spec_join(msgs))
        },
    }
}

/// Two message flags join their values with exactly one blank line between
/// them, in the order given, whatever the two values are.
pub proof fn lemma_two_messages_join(name: Seq<char>, a: Seq<char>, b: Seq<char>)
    ensures
        spec_parse_commit_message(seq![name, spec_m_flag(), a, spec_m_flag(), b]) == Result::<
            Seq<char>,
            SpecMessageError,
        >::Ok(a + seq!['\n', '\n'] + b),
{
    let args = seq![name, spec_m_flag(), a, spec_m_flag(), b];
    assert(args[1] == spec_m_flag() && args[2] == a && args[3] == spec_m_flag() && args[4] == b);
    assert(spec_collect(args, 5) == Result::<Seq<Seq<char>>, SpecMessageError>::Ok(
        Seq::empty(),
    ));
    assert(spec_collect(args, 3) == Result::<Seq<Seq<char>>, SpecMessageError>::Ok(
        seq![b] + Seq::empty(),
    ));
    assert(spec_collect(args, 1) == Result::<Seq<Seq<char>>, SpecMessageError>::Ok(
        seq![a] + (seq![b] + Seq::empty()),
    ));
    let msgs = seq![a] + (seq![b] + Seq::empty());
    assert(msgs =~= seq![a, b]);
    assert(seq![a, b].drop_last() =~= seq![a]);
    assert(seq![a, b].last() == b);
    assert(spec_join(seq![a]) == a);
    assert(spec_join(seq![a, b]) == a + seq!['\n', '\n'] + b);
}

/// Parse the repeated `-m`/`--message` flags of a commit invocation and
/// join their values with a blank line between them, in the order given.
/// Fails on a flag without a value, on any other flag, and when no message
/// was given — exactly as `spec_parse_commit_message` lays down.
pub fn parse_commit_message(args: &Vec<String>) -> (r: Result<String, MessageError>)
    ensures
        r matches Ok(s) ==> spec_parse_commit_message(args.deep_view()) == Result::<
            Seq<char>,
            SpecMessageError,
        >::Ok(s@),
        r matches Err(e) ==> spec_parse_commit_message(args.deep_view()) == Result::<
            Seq<char>,
            SpecMessageError,
        >::Err(e@),
{
    let ghost av = args.deep_view();
    proof {
        reveal_strlit("-m");
        reveal_strlit("--message");
        assert("-m"@ =~= spec_m_flag());
        assert("--message"@ =~= spec_message_flag());
    }
    let n: usize = args.len();
    let mut msgs: Vec<String> = Vec::new();
    let mut i: usize = 1;
    while i < n
        invariant
            n == args@.len(),
            av == args.deep_view(),
            av.len() == n,
            "-m"@ == spec_m_flag(),
            "--message"@ == spec_message_flag(),
            1 <= i <= n + 1,
            spec_collect(av, 1) == (match spec_collect(av, i as int) {
                Result::<Seq<Seq<char>>, SpecMessageError>::Ok(rest) => Result::<
                    Seq<Seq<char>>,
                    SpecMessageError,
                >::Ok(msgs.deep_view() + rest),
                Result::<Seq<Seq<char>>, SpecMessageError>::Err(e) => Result::<
                    Seq<Seq<char>>,
                    SpecMessageError,
                >::Err(e),
            }),
        decreases n - i,
    {
        proof {
            assert(av[i as int] == args@[i as int]@);
        }
        let is_flag = str_eq(args[i].as_str(), "-m") || str_eq(args[i].as_str(), "--message");
        if is_flag {
            if i + 1 >= n {
                let flag = args[i].clone();
                proof {
                    assert(spec_collect(av, i as int) == Result::<
                        Seq<Seq<char>>,
                        SpecMessageError,
                    >::Err(SpecMessageError::MissingValue { flag: av[i as int] }));
                }
                return Err(MessageError::MissingValue { flag });
            }
            let ghost pre = msgs.deep_view();
            msgs.push(args[i + 1].clone());
            proof {
                assert(av[i + 1] == args@[i + 1]@);
                assert(msgs.deep_view() =~= pre.push(av[i + 1]));
                assert forall|rest: Seq<Seq<char>>|
                    #[trigger] (msgs.deep_view() + rest) =~= pre + (seq![av[i + 1]] + rest) by {}
            }
            i = i + 2;
        } else {
            let starts_dash = args[i].as_str().unicode_len() > 0 && args[i].as_str().get_char(0)
                == '-';
            if starts_dash {
                let flag = args[i].clone();
                proof {
                    assert(av[i as int].len() > 0 && av[i as int][0] == '-');
                    assert(spec_collect(av, i as int) == Result::<
                        Seq<Seq<char>>,
                        SpecMessageError,
                    >::Err(SpecMessageError::UnsupportedFlag { flag: av[i as int] }));
                }
                return Err(MessageError::UnsupportedFlag { flag });
            }
            i = i + 1;
        }
    }
    if msgs.len() == 0 {
        proof {
            assert(spec_collect(av, i as int) == Result::<Seq<Seq<char>>, SpecMessageError>::Ok(
                Seq::empty(),
            ));
            assert(msgs.deep_view() + Seq::<Seq<char>>::empty() =~= msgs.deep_view());
            assert(msgs.deep_view().len() == 0);
        }
        return Err(MessageError::NoMessage);
    }
    proof {
        assert(spec_collect(av, i as int) == Result::<Seq<Seq<char>>, SpecMessageError>::Ok(
            Seq::empty(),
        ));
        assert(msgs.deep_view() + Seq::<Seq<char>>::empty() =~= msgs.deep_view());
    }
    let m: usize = msgs.len();
    let mut out = String::new();
    let mut j: usize = 0;
    proof {
        reveal_strlit("\n\n");
        assert("\n\n"@ =~= seq!['\n', '\n']);
    }
    while j < m
        invariant
            m == msgs@.len(),
            0 <= j <= m,
            "\n\n"@ == seq!['\n', '\n'],
            out@ == spec_join(msgs.deep_view().take(j as int)),
        decreases m - j,
    {
        if j > 0 {
            out.append("\n\n");
        }
        out.append(msgs[j].as_str());
        proof {
            let mv = msgs.deep_view();
            assert(mv.take(j + 1).drop_last() =~= mv.take(j as int));
            assert(mv.take(j + 1).last() == mv[j as int]);
            assert(mv[j as int] == msgs@[j as int]@);
            if j == 0 {
                assert(out@ =~= spec_join(mv.take(1)));
            }
        }
        j = j + 1;
    }
    proof {
        assert(msgs.deep_view().take(m as int) =~= msgs.deep_view());
    }
    Ok(out)
}

} // verus!
