//! Line dispatch and code generation.
use vstd::prelude::*;

use crate::error::{TransError, TransErrorView};
use crate::opcode::{opcode_spec, opcode_type, opcode_type_spec, parse_opcode, Opcode, OpcodeType};
use crate::symbols::{alloc_spec, mem_ref, mem_ref_string, req_mem, resolve_operand, resolve_spec, SymbolTable};
use crate::text::{is_space_char, str_eq, tokenize, tokens_of, trim, trim_end, trim_start, views};

verus! {

/// The outcome of translating one instruction: the symbol table afterwards and the
/// generated statement, or the error.
pub type StepSpec = Result<(Seq<Seq<char>>, Seq<char>), TransErrorView>;

/// The statement body that `op` generates for operand `loc`, with the label `label`
/// (which only DC reads), and the symbol table afterwards.
pub open spec fn action_spec(
    names: Seq<Seq<char>>,
    label: Seq<char>,
    op: Option<Opcode>,
    loc: Seq<char>,
) -> StepSpec {
    let e = resolve_spec(names, loc);
    match op {
        Some(Opcode::Load) => Ok((names, "acc = "@ + e + ";"@)),
        Some(Opcode::Store) => {
            let (after, slot) = alloc_spec(names, loc);
            Ok((after, mem_ref(slot) + " = acc;"@))
        },
        Some(Opcode::Add) => Ok((names, "acc = (acc + "@ + e + ") % MOD;"@)),
        Some(Opcode::Sub) => Ok((names, "acc = (acc - "@ + e + ") % MOD;"@)),
        Some(Opcode::Mult) => Ok((names, "acc = (acc * "@ + e + ") % MOD;"@)),
        Some(Opcode::Div) => Ok((names, "acc = (acc / "@ + e + ") % MOD;"@)),
        Some(Opcode::Be) => Ok((names, "if (acc == 0) goto "@ + loc + ";"@)),
        Some(Opcode::Bu) => Ok((names, "if (acc > 0) goto "@ + loc + ";"@)),
        Some(Opcode::Bl) => Ok((names, "if (acc < 0) goto "@ + loc + ";"@)),
        Some(Opcode::End) => Ok((names, "return 0;"@)),
        Some(Opcode::Read) => Err(TransErrorView::Unimplemented("READ"@)),
        Some(Opcode::Print) => Ok((names, "printf(\"%d\\n\", "@ + e + ");"@)),
        Some(Opcode::Dc) => {
            let (after, slot) = alloc_spec(names, label);
            Ok((after, mem_ref(slot) + " = "@ + loc + ";"@))
        },
        Some(Opcode::Bg) | None => Ok((names, Seq::empty())),
    }
}

/// The text that makes `label` a jump target ahead of a statement.
pub open spec fn label_prefix(label: Seq<char>) -> Seq<char> {
    label + ":;\n    "@
}

/// Translation of one instruction: the body that the opcode generates, preceded by
/// a jump label when there is a label and the opcode is not DC.
pub open spec fn trans_spec(
    names: Seq<Seq<char>>,
    label: Seq<char>,
    opcode: Seq<char>,
    loc: Seq<char>,
) -> StepSpec {
    match action_spec(names, label, opcode_spec(opcode), loc) {
        Ok((after, body)) => Ok(
            (
                after,
                if opcode != "DC"@ && label.len() > 0 {
                    label_prefix(label) + body
                } else {
                    body
                },
            ),
        ),
        Err(e) => Err(e),
    }
}

/// Translation of the tokens of one line. The first token is the opcode, or else a
/// label followed by the opcode; the operand, where the opcode takes one, comes next.
/// Tokens after it are ignored. No tokens give an empty statement.
pub open spec fn dispatch_spec(names: Seq<Seq<char>>, toks: Seq<Seq<char>>) -> StepSpec {
    if toks.len() == 0 {
        Ok((names, Seq::empty()))
    } else {
        match opcode_type_spec(toks[0]) {
            OpcodeType::LocRequired => if toks.len() < 2 {
                Err(TransErrorView::MissingOperand(toks[0]))
            } else {
                trans_spec(names, Seq::empty(), toks[0], toks[1])
            },
            OpcodeType::NothingRequired => trans_spec(names, Seq::empty(), toks[0], Seq::empty()),
            OpcodeType::LocAndLabelRequired => Err(TransErrorView::MissingLabel(toks[0])),
            OpcodeType::NotAnOpcode => if toks.len() < 2 {
                Err(TransErrorView::MissingOpcode)
            } else {
                match opcode_type_spec(toks[1]) {
                    OpcodeType::LocRequired | OpcodeType::LocAndLabelRequired => if toks.len()
                        < 3 {
                        Err(TransErrorView::MissingOperand(toks[1]))
                    } else {
                        trans_spec(names, toks[0], toks[1], toks[2])
                    },
                    OpcodeType::NothingRequired => trans_spec(
                        names,
                        toks[0],
                        toks[1],
                        Seq::empty(),
                    ),
                    OpcodeType::NotAnOpcode => Err(TransErrorView::InvalidOpcode(toks[1])),
                }
            }
        }
    }
}

/// `r` is the translation that `spec` describes, starting from table `before` and
/// ending with table `after`; an error leaves the table as it was.
pub open spec fn step_matches(
    r: Result<String, TransError>,
    spec: StepSpec,
    before: Seq<Seq<char>>,
    after: Seq<Seq<char>>,
) -> bool {
    match r {
        Ok(s) => spec == Ok::<(Seq<Seq<char>>, Seq<char>), TransErrorView>((after, s@)),
        Err(e) => spec == Err::<(Seq<Seq<char>>, Seq<char>), TransErrorView>(e@) && after
            == before,
    }
}

/// A pass over the lines of a program: the final symbol table and one statement per
/// line, or the 1-based number of the first line that fails and its error.
pub open spec fn run_spec(lines: Seq<Seq<char>>) -> Result<
    (Seq<Seq<char>>, Seq<Seq<char>>),
    (nat, TransErrorView),
>
    decreases lines.len(),
{
    if lines.len() == 0 {
        Ok((Seq::empty(), Seq::empty()))
    } else {
        match run_spec(lines.drop_last()) {
            Err(x) => Err(x),
            Ok((names, stmts)) => match dispatch_spec(names, tokens_of(lines.last())) {
                Ok((after, st)) => Ok((after, stmts.push(st))),
                Err(e) => Err((lines.len() as nat, e)),
            },
        }
    }
}

/// Once a pass has failed, later lines do not change its outcome.
proof fn lemma_run_stops_at_error(lines: Seq<Seq<char>>, k: int, j: int)
    requires
        0 <= k <= j <= lines.len(),
        run_spec(lines.subrange(0, k)) is Err,
    ensures
        run_spec(lines.subrange(0, j)) == run_spec(lines.subrange(0, k)),
    decreases j - k,
{
    if j > k {
        lemma_run_stops_at_error(lines, k, j - 1);
        assert(lines.subrange(0, j).drop_last() == lines.subrange(0, j - 1));
    }
}

/// READ is never translated: with any label and any operand, and whatever the
/// table holds, the line fails with the same error and binds nothing.
pub proof fn lemma_read_always_fails(
    names: Seq<Seq<char>>,
    label: Seq<char>,
    loc: Seq<char>,
    rest: Seq<Seq<char>>,
)
    ensures
        trans_spec(names, label, "READ"@, loc) == Err::<(Seq<Seq<char>>, Seq<char>), TransErrorView>(
            TransErrorView::Unimplemented("READ"@),
        ),
        dispatch_spec(names, seq!["READ"@, loc] + rest) == Err::<
            (Seq<Seq<char>>, Seq<char>),
            TransErrorView,
        >(TransErrorView::Unimplemented("READ"@)),
{
    reveal_strlit("READ");
    reveal_strlit("LOAD");
    reveal_strlit("STORE");
    reveal_strlit("ADD");
    reveal_strlit("SUB");
    reveal_strlit("MULT");
    reveal_strlit("DIV");
    reveal_strlit("BE");
    reveal_strlit("BG");
    reveal_strlit("BL");
    reveal_strlit("BU");
    assert("READ"@[0] != "LOAD"@[0]);
    assert("READ"@ != "LOAD"@);
    assert("READ"@ != "STORE"@);
    assert("READ"@ != "ADD"@);
    assert("READ"@ != "SUB"@);
    assert("READ"@[0] != "MULT"@[0]);
    assert("READ"@ != "MULT"@);
    assert("READ"@ != "DIV"@);
    assert("READ"@ != "BE"@);
    assert("READ"@ != "BG"@);
    assert("READ"@ != "BL"@);
    assert("READ"@ != "BU"@);
    assert(opcode_spec("READ"@) == Some(Opcode::Read));
    let toks = seq!["READ"@, loc] + rest;
    assert(toks[0] == "READ"@ && toks[1] == loc && toks.len() >= 2);
}

/// Trimming a line of white space alone leaves nothing.
proof fn lemma_trim_blank(s: Seq<char>)
    requires
        forall|i: int| 0 <= i < s.len() ==> is_space_char(#[trigger] s[i]),
    ensures
        trim(s).len() == 0,
    decreases s.len(),
{
    if s.len() > 0 {
        assert forall|i: int| 0 <= i < s.drop_first().len() implies is_space_char(
            #[trigger] s.drop_first()[i],
        ) by {
            assert(s.drop_first()[i] == s[i + 1]);
        }
        lemma_trim_blank(s.drop_first());
    } else {
        assert(trim_start(s) == s);
    }
}

/// A line that is empty or holds only white space gives an empty statement and
/// leaves the table as it is.
pub proof fn lemma_blank_line(names: Seq<Seq<char>>, line: Seq<char>)
    requires
        forall|i: int| 0 <= i < line.len() ==> is_space_char(#[trigger] line[i]),
    ensures
        dispatch_spec(names, tokens_of(line)) == Ok::<(Seq<Seq<char>>, Seq<char>), TransErrorView>(
            (names, Seq::empty()),
        ),
{
    lemma_trim_blank(line);
}

/// The statements generated for a whole program, and its memory size: the number
/// of distinct variables that it allocates.
#[derive(Debug)]
pub struct Translation {
    pub statements: Vec<String>,
    pub mem_size: usize,
}

/// The first line that could not be translated (counted from 1), and why.
#[derive(Debug)]
pub struct LineError {
    pub line: usize,
    pub error: TransError,
}

/// `pre`, `mid` and `post` one after the other.
fn concat3(pre: &str, mid: &str, post: &str) -> (r: String)
    ensures
        r@ == pre@ + mid@ + post@,
{
    let mut r = String::from_str(pre);
    r.append(mid);
    r.append(post);
    r
}

/// Translates one instruction with an optional `label` (empty for none) and its
/// operand `loc` (empty for none).
pub fn trans(table: &mut SymbolTable, label: &str, opcode: &str, loc: &str) -> (r: Result<
    String,
    TransError,
>)
    requires
        old(table).wf(),
    ensures
        final(table).wf(),
        step_matches(r, trans_spec(old(table)@, label@, opcode@, loc@), old(table)@, final(table)@),
{
    let read_loc = resolve_operand(table, loc);
    let e = read_loc.as_str();
    let action = match parse_opcode(opcode) {
        Some(Opcode::Load) => concat3("acc = ", e, ";"),
        Some(Opcode::Store) => {
            let slot = req_mem(table, loc);
            let mut s = mem_ref_string(slot);
            s.append(" = acc;");
            s
        },
        Some(Opcode::Add) => concat3("acc = (acc + ", e, ") % MOD;"),
        Some(Opcode::Sub) => concat3("acc = (acc - ", e, ") % MOD;"),
        Some(Opcode::Mult) => concat3("acc = (acc * ", e, ") % MOD;"),
        Some(Opcode::Div) => concat3("acc = (acc / ", e, ") % MOD;"),
        Some(Opcode::Be) => concat3("if (acc == 0) goto ", loc, ";"),
        Some(Opcode::Bu) => concat3("if (acc > 0) goto ", loc, ";"),
        Some(Opcode::Bl) => concat3("if (acc < 0) goto ", loc, ";"),
        Some(Opcode::End) => String::from_str("return 0;"),
        Some(Opcode::Read) => {
            return Err(TransError::Unimplemented(String::from_str("READ")));
        },
        Some(Opcode::Print) => concat3("printf(\"%d\\n\", ", e, ");"),
        Some(Opcode::Dc) => {
            let slot = req_mem(table, label);
            let mut s = mem_ref_string(slot);
            s.append(" = ");
            s.append(loc);
            s.append(";");
            s
        },
        Some(Opcode::Bg) | None => String::new(),
    };
    let mut statement = String::new();
    if !str_eq(opcode, "DC") && label.unicode_len() > 0 {
        statement.append(label);
        statement.append(":;\n    ");
    }
    statement.append(action.as_str());
    Ok(statement)
}

/// Translates the tokens of one line.
pub fn process_comps(comps: &Vec<String>, table: &mut SymbolTable) -> (r: Result<
    String,
    TransError,
>)
    requires
        old(table).wf(),
    ensures
        final(table).wf(),
        step_matches(r, dispatch_spec(old(table)@, views(comps@)), old(table)@, final(table)@),
{
    let ghost toks = views(comps@);
    proof {
        reveal_strlit("");
    }
    if comps.len() == 0 {
        return Ok(String::new());
    }
    let first = comps[0].as_str();
    assert(first@ == toks[0]);
    match opcode_type(first) {
        OpcodeType::LocRequired => {
            if comps.len() < 2 {
                return Err(TransError::MissingOperand(comps[0].clone()));
            }
            assert(comps[1]@ == toks[1]);
            trans(table, "", first, comps[1].as_str())
        },
        OpcodeType::NothingRequired => trans(table, "", first, ""),
        OpcodeType::LocAndLabelRequired => Err(TransError::MissingLabel(comps[0].clone())),
        OpcodeType::NotAnOpcode => {
            if comps.len() < 2 {
                return Err(TransError::MissingOpcode);
            }
            let second = comps[1].as_str();
            assert(second@ == toks[1]);
            match opcode_type(second) {
                OpcodeType::LocRequired | OpcodeType::LocAndLabelRequired => {
                    if comps.len() < 3 {
                        return Err(TransError::MissingOperand(comps[1].clone()));
                    }
                    assert(comps[2]@ == toks[2]);
                    trans(table, first, second, comps[2].as_str())
                },
                OpcodeType::NothingRequired => trans(table, first, second, ""),
                OpcodeType::NotAnOpcode => Err(TransError::InvalidOpcode(comps[1].clone())),
            }
        },
    }
}

/// Translates one source line.
pub fn translate_line(line: &str, table: &mut SymbolTable) -> (r: Result<String, TransError>)
    requires
        old(table).wf(),
    ensures
        final(table).wf(),
        step_matches(r, dispatch_spec(old(table)@, tokens_of(line@)), old(table)@, final(table)@),
{
    let comps = tokenize(line);
    process_comps(&comps, table)
}

/// Translates a program in one pass, stopping at the first line that fails.
pub fn translate_lines(lines: &Vec<String>) -> (r: Result<Translation, LineError>)
    ensures
        match r {
            Ok(t) => run_spec(views(lines@)) matches Ok((names, stmts)) && stmts == views(
                t.statements@,
            ) && t.mem_size == names.len(),
            Err(le) => run_spec(views(lines@)) == Err::<
                (Seq<Seq<char>>, Seq<Seq<char>>),
                (nat, TransErrorView),
            >((le.line as nat, le.error@)),
        },
{
    let mut table = SymbolTable::new();
    let mut statements: Vec<String> = Vec::new();
    let mut i: usize = 0;
    assert(views(lines@).subrange(0, 0) == Seq::<Seq<char>>::empty());
    assert(views(statements@) == Seq::<Seq<char>>::empty());
    while i < lines.len()
        invariant
            i <= lines@.len(),
            table.wf(),
            run_spec(views(lines@).subrange(0, i as int)) == Ok::<
                (Seq<Seq<char>>, Seq<Seq<char>>),
                (nat, TransErrorView),
            >((table@, views(statements@))),
        decreases lines.len() - i,
    {
        let ghost prefix = views(lines@).subrange(0, i + 1);
        assert(prefix.drop_last() == views(lines@).subrange(0, i as int));
        assert(prefix.last() == lines[i as int]@);
        match translate_line(lines[i].as_str(), &mut table) {
            Ok(s) => {
                let ghost before = statements@;
                statements.push(s);
                assert(views(statements@) == views(before).push(s@));
            },
            Err(error) => {
                proof {
                    lemma_run_stops_at_error(views(lines@), i + 1, lines@.len() as int);
                    assert(views(lines@).subrange(0, lines@.len() as int) == views(lines@));
                }
                return Err(LineError { line: i + 1, error });
            },
        }
        i += 1;
    }
    assert(views(lines@).subrange(0, i as int) == views(lines@));
    let mem_size = table.len();
    Ok(Translation { statements, mem_size })
}

} // verus!
