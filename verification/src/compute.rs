use vstd::prelude::*;
use crate::command::{listing, Commands, Entry};
use crate::data_base::{
    bound, functions_text, lemma_bound, lemma_builtin_lookup, lookup, variables_text, DataBase,
    DataView, Store,
};
use crate::equation::{equation_of, equation_text, zero_term, Equation};
use crate::evaluation::{calculation, Local};
use crate::lexer::{lex_all, lexemes, Lexeme, Lexer, Token};
use crate::num::{value_show_text, value_text};
use crate::parser::{call_free, equal_positions, plain, tree_wf, Expr, Parser};
use crate::printer::{free_variable, tree_text, two_variables};
use crate::scalar::{floats_of, lawful, Answer, Floats, Query};
use crate::solution::solution_text;
use crate::syntax::{make_tree, Cursor, Env};
use crate::text::lowercased;
use crate::tree_builder::env_of;

verus! {

/// What a line comes to: the text that goes into the history and the text
/// that is shown.
pub type Reply = Result<(Seq<char>, Seq<char>), Seq<char>>;

/// The store after a line, and the reply to it.
pub struct Computed {
    pub store: Store,
    pub reply: Reply,
}

/// The tree that a run of tokens stands for.
pub open spec fn parsed(env: Env, tokens: Seq<Lexeme>) -> Result<Expr, Seq<char>> {
    make_tree(env, Cursor { tokens, index: 0 })
}

/// `expr = ?`: the value of the expression, or what is left of it when a
/// name in it is free.
pub open spec fn value_reply(env: Env, left: Seq<Lexeme>) -> Reply {
    match parsed(env, left) {
        Err(m) => Err(m),
        Ok(tree) => {
            let e = calculation(env, tree, None);
            match e.out {
                Err(m) => Err(m),
                Ok(Some(v)) => Ok((value_text(env.fl, v), value_show_text(env.fl, v) + "\n"@)),
                Ok(None) => match tree_text(env.fl, e.tree) {
                    Err(m) => Err(m),
                    Ok(s) => Ok((s, "  "@ + s + "\n"@)),
                },
            }
        },
    }
}

/// `expr = expr ?`: the equation in its reduced form, and what the solver
/// says of it.
pub open spec fn equation_reply(env: Env, left: Seq<Lexeme>, right: Seq<Lexeme>) -> Reply {
    match parsed(env, left) {
        Err(m) => Err(m),
        Ok(left_tree) => {
            let l = calculation(env, left_tree, None);
            match l.out {
                Err(m) => Err(m),
                Ok(_) => match parsed(env, right.drop_last()) {
                    Err(m) => Err(m),
                    Ok(right_tree) => {
                        let r = calculation(env, right_tree, None);
                        match r.out {
                            Err(m) => Err(m),
                            Ok(_) => match equation_of(
                                env.fl,
                                seq![zero_term()],
                                l.tree,
                                r.tree,
                            ) {
                                Err(m) => Err(m),
                                Ok(equation) => match equation_text(env.fl, equation) {
                                    Err(m) => Err(m),
                                    Ok(written) => match solution_text(env.fl, equation) {
                                        Err(m) => Err(m),
                                        Ok(solved) => {
                                            let head = "  "@ + written + " = 0\n"@;
                                            Ok((head + solved, head + solved + "\n"@))
                                        },
                                    },
                                },
                            },
                        }
                    },
                },
            }
        },
    }
}

/// `name = expr`: the expression must come to a number, which the name is
/// then bound to, unless a built-in function has that name.
pub open spec fn binding(env: Env, name: Seq<char>, right: Seq<Lexeme>) -> Computed {
    match parsed(env, right) {
        Err(m) => Computed { store: env.store, reply: Err(m) },
        Ok(tree) => {
            let e = calculation(env, tree, None);
            match e.out {
                Err(m) => Computed { store: env.store, reply: Err(m) },
                Ok(None) => Computed { store: env.store, reply: Err("Undefined Variables"@) },
                Ok(Some(v)) => if lookup(env.store.built_in, lowercased(name)) is Some {
                    Computed { store: env.store, reply: Err("The variable cannot be registered"@) }
                } else {
                    Computed {
                        store: env.store.registered(lowercased(name), DataView::Num(v)),
                        reply: Ok((value_text(env.fl, v), value_show_text(env.fl, v) + "\n"@)),
                    }
                },
            }
        },
    }
}

/// `name(variable) = expr`: the expression is evaluated with the parameter
/// left free, must hold no other free name and no call, and becomes the
/// body of the function, unless a built-in function has that name.
pub open spec fn definition(
    env: Env,
    name: Seq<char>,
    variable: Seq<char>,
    right: Seq<Lexeme>,
) -> Computed {
    match parsed(env, right) {
        Err(m) => Computed { store: env.store, reply: Err(m) },
        Ok(tree) => {
            let e = calculation(env, tree, Some((variable, None)));
            match e.out {
                Err(m) => Computed { store: env.store, reply: Err(m) },
                Ok(_) => match free_variable(e.tree) {
                    Err(m) => Computed { store: env.store, reply: Err(m) },
                    Ok(found) => if found is Some && found->Some_0 != variable {
                        Computed {
                            store: env.store,
                            reply: Err(two_variables(found->Some_0, variable)),
                        }
                    } else if lookup(env.store.built_in, lowercased(name)) is Some {
                        Computed {
                            store: env.store,
                            reply: Err("The function cannot be registered"@),
                        }
                    } else {
                        match tree_text(env.fl, e.tree) {
                            Err(m) => Computed { store: env.store, reply: Err(m) },
                            Ok(s) => Computed {
                                store: env.store.registered(
                                    lowercased(name),
                                    DataView::Func(e.tree, variable),
                                ),
                                reply: Ok((s, "  "@ + s + "\n"@)),
                            },
                        }
                    },
                },
            }
        },
    }
}

/// What the tokens of a line ask for, by their shape.
pub open spec fn dispatch(env: Env, tokens: Seq<Lexeme>, history: Seq<Entry>) -> Computed {
    let same = |reply: Reply| Computed { store: env.store, reply };
    if tokens.len() == 1 && tokens[0] == Lexeme::Name("variables"@) {
        same(Ok((Seq::empty(), variables_text(env.fl, env.store.data))))
    } else if tokens.len() == 1 && tokens[0] == Lexeme::Name("functions"@) {
        match functions_text(env.fl, env.store.data) {
            Err(m) => same(Err(m)),
            Ok(s) => same(Ok((Seq::empty(), s))),
        }
    } else if tokens.len() == 1 && tokens[0] == Lexeme::Name("history"@) {
        same(Ok((Seq::empty(), listing(history))))
    } else {
        let at = equal_positions(tokens, 0);
        if at.len() == 0 {
            same(Err("= never appeared: syntax error"@))
        } else if at.len() >= 2 {
            same(Err("= appeared twice: syntax error"@))
        } else {
            let left = tokens.subrange(0, at[0]);
            let right = tokens.subrange(at[0] + 1, tokens.len() as int);
            if right.len() == 1 && right[0] is Question {
                same(value_reply(env, left))
            } else if right.len() > 1 && right.last() is Question {
                same(equation_reply(env, left, right))
            } else if left.len() == 1 && left[0] is Name {
                binding(env, left[0]->Name_0, right)
            } else if left.len() == 4 && left[0] is Name && left[1] is LParen && left[2] is Name
                && left[3] is RParen {
                definition(env, left[0]->Name_0, left[2]->Name_0, right)
            } else {
                same(Ok(("Unsupported format"@, "  Unsupported format\n"@)))
            }
        }
    }
}

/// What a line comes to in a session: the line is split into tokens, and
/// the tokens are dispatched by their shape.
pub open spec fn computed(env: Env, code: Seq<char>, history: Seq<Entry>) -> Computed {
    match lex_all(code, 0) {
        Err(m) => Computed { store: env.store, reply: Err(m) },
        Ok(tokens) => dispatch(env, tokens, history),
    }
}

/// The exec reply stands for the model.
pub open spec fn reply_matches(res: Result<(String, String), String>, reply: Reply) -> bool {
    match reply {
        Ok((a, b)) => res is Ok && res->Ok_0.0@ == a && res->Ok_0.1@ == b,
        Err(m) => res is Err && res->Err_0@ == m,
    }
}

/// An expression without free-variable error holds no call.
pub proof fn lemma_free_variable_call_free(t: Expr)
    requires
        free_variable(t) is Ok,
    ensures
        call_free(t),
        plain(t),
    decreases t,
{
    match t {
        crate::binary_tree::BinaryTree::Empty => {},
        crate::binary_tree::BinaryTree::NonEmpty(b) => {
            lemma_free_variable_call_free(b.left);
            lemma_free_variable_call_free(b.right);
        },
    }
}

/// The listing of the numbers that the user has bound.
pub fn show_variable<F: Fn(Query) -> Answer>(data_base: &DataBase, fl: &F) -> (res: Result<
    (String, String),
    String,
>)
    requires
        data_base.wf(),
        lawful(fl),
    ensures
        reply_matches(
            res,
            Ok((Seq::empty(), variables_text(floats_of(fl), data_base@.data))),
        ),
{
    let string = data_base.show_variable(fl);
    Ok((String::new(), string))
}

/// The listing of the functions that the user has defined.
pub fn show_function<F: Fn(Query) -> Answer>(data_base: &DataBase, fl: &F) -> (res: Result<
    (String, String),
    String,
>)
    requires
        data_base.wf(),
        lawful(fl),
    ensures
        reply_matches(
            res,
            match functions_text(floats_of(fl), data_base@.data) {
                Err(m) => Err(m),
                Ok(s) => Ok((Seq::empty(), s)),
            },
        ),
{
    match data_base.show_function(fl) {
        Ok(string) => Ok((String::new(), string)),
        Err(e) => Err(e),
    }
}

/// The listing of the history.
pub fn show_commands(commands: &Commands) -> (res: (String, String))
    ensures
        res.0@ == Seq::<char>::empty(),
        res.1@ == listing(commands@),
{
    let string = commands.show();
    (String::new(), string)
}

/// `expr = ?`
pub fn calculate<F: Fn(Query) -> Answer>(left_vec: Vec<Token>, data_base: &DataBase, fl: &F) -> (res:
    Result<(String, String), String>)
    requires
        data_base.wf(),
        lawful(fl),
    ensures
        reply_matches(res, value_reply(env_of(data_base, fl), lexemes(left_vec@))),
{
    let mut parser = Parser::new(left_vec);
    let mut tree = match parser.make_tree(data_base, fl) {
        Ok(t) => t,
        Err(e) => {
            return Err(e);
        },
    };
    let left_value = match parser.calculation(&mut tree, data_base, None, fl) {
        Ok(v) => v,
        Err(e) => {
            return Err(e);
        },
    };
    match left_value {
        Some(v) => {
            let mut output = v.to_show_value_string(fl);
            output.append("\n");
            Ok((v.to_string(fl), output))
        },
        None => {
            let s = match Parser::print_tree(&tree, fl) {
                Ok(s) => s,
                Err(e) => {
                    return Err(e);
                },
            };
            let mut output = String::from_str("  ");
            output.append(s.as_str());
            output.append("\n");
            Ok((s, output))
        },
    }
}

/// `expr = expr ?`
pub fn solution_equation<F: Fn(Query) -> Answer>(
    left_vec: Vec<Token>,
    right_vec: Vec<Token>,
    data_base: &DataBase,
    fl: &F,
) -> (res: Result<(String, String), String>)
    requires
        data_base.wf(),
        lawful(fl),
        right_vec@.len() > 0,
    ensures
        reply_matches(
            res,
            equation_reply(env_of(data_base, fl), lexemes(left_vec@), lexemes(right_vec@)),
        ),
{
    let mut parser = Parser::new(left_vec);
    let mut left_tree = match parser.make_tree(data_base, fl) {
        Ok(t) => t,
        Err(e) => {
            return Err(e);
        },
    };
    match parser.calculation(&mut left_tree, data_base, None, fl) {
        Ok(_) => {},
        Err(e) => {
            return Err(e);
        },
    }
    let ghost given = right_vec@;
    let mut rest = right_vec;
    rest.pop();
    assert(lexemes(rest@) =~= lexemes(given).drop_last()) by {
        assert(rest@ =~= given.drop_last());
    }
    let mut parser = Parser::new(rest);
    let mut right_tree = match parser.make_tree(data_base, fl) {
        Ok(t) => t,
        Err(e) => {
            return Err(e);
        },
    };
    match parser.calculation(&mut right_tree, data_base, None, fl) {
        Ok(_) => {},
        Err(e) => {
            return Err(e);
        },
    }
    let mut equation = Equation::new();
    match equation.make_equation(&left_tree, &right_tree, fl) {
        Ok(_) => {},
        Err(e) => {
            return Err(e);
        },
    }
    let written = match equation.to_string(fl) {
        Ok(s) => s,
        Err(e) => {
            return Err(e);
        },
    };
    let mut string = String::from_str("  ");
    string.append(written.as_str());
    string.append(" = 0\n");
    let solution_string = match equation.solution(fl) {
        Ok(s) => s,
        Err(e) => {
            return Err(e);
        },
    };
    string.append(solution_string.as_str());
    let mut output = string.clone();
    output.append("\n");
    Ok((string, output))
}

/// `name = expr`
pub fn register<F: Fn(Query) -> Answer>(
    left_vec: Vec<Token>,
    right_vec: Vec<Token>,
    data_base: &mut DataBase,
    fl: &F,
) -> (res: Result<(String, String), String>)
    requires
        old(data_base).wf(),
        lawful(fl),
        left_vec@.len() == 1,
        left_vec@[0]@ is Name,
    ensures
        final(data_base).wf(),
        ({
            let c = binding(
                env_of(old(data_base), fl),
                left_vec@[0]@->Name_0,
                lexemes(right_vec@),
            );
            final(data_base)@ == c.store && reply_matches(res, c.reply)
        }),
{
    let mut parser = Parser::new(right_vec);
    let mut tree = match parser.make_tree(data_base, fl) {
        Ok(t) => t,
        Err(e) => {
            return Err(e);
        },
    };
    let right_value = match parser.calculation(&mut tree, data_base, None, fl) {
        Ok(v) => v,
        Err(e) => {
            return Err(e);
        },
    };
    let right_value = match right_value {
        Some(v) => v,
        None => {
            return Err(String::from_str("Undefined Variables"));
        },
    };
    let key = match Parser::get_string_token_string(&left_vec[0]) {
        Ok(k) => k,
        Err(e) => {
            return Err(e);
        },
    };
    let mut output = right_value.to_show_value_string(fl);
    output.append("\n");
    let result = right_value.to_string(fl);
    match data_base.register_num(key, right_value) {
        Ok(_) => {},
        Err(e) => {
            return Err(e);
        },
    }
    Ok((result, output))
}

/// `name(variable) = expr`
pub fn func_register<F: Fn(Query) -> Answer>(
    left_vec: Vec<Token>,
    right_vec: Vec<Token>,
    data_base: &mut DataBase,
    fl: &F,
) -> (res: Result<(String, String), String>)
    requires
        old(data_base).wf(),
        lawful(fl),
        left_vec@.len() == 4,
        left_vec@[0]@ is Name,
        left_vec@[2]@ is Name,
    ensures
        final(data_base).wf(),
        ({
            let c = definition(
                env_of(old(data_base), fl),
                left_vec@[0]@->Name_0,
                left_vec@[2]@->Name_0,
                lexemes(right_vec@),
            );
            final(data_base)@ == c.store && reply_matches(res, c.reply)
        }),
{
    let key = match Parser::get_string_token_string(&left_vec[0]) {
        Ok(k) => k,
        Err(e) => {
            return Err(e);
        },
    };
    let variable = match Parser::get_string_token_string(&left_vec[2]) {
        Ok(k) => k,
        Err(e) => {
            return Err(e);
        },
    };
    let mut parser = Parser::new(right_vec);
    let mut tree = match parser.make_tree(data_base, fl) {
        Ok(t) => t,
        Err(e) => {
            return Err(e);
        },
    };
    match parser.calculation(&mut tree, data_base, Some((variable, None)), fl) {
        Ok(_) => {},
        Err(e) => {
            return Err(e);
        },
    }
    match Parser::check_variable_in_tree(&tree) {
        Err(e) => {
            return Err(e);
        },
        Ok(Some(var)) => {
            if var != *variable {
                let mut message = var;
                message.append(", ");
                message.append(variable.as_str());
                message.append(": error two variable");
                return Err(message);
            }
        },
        Ok(None) => {},
    }
    proof {
        lemma_free_variable_call_free(tree@);
    }
    if data_base.is_builtin(key) {
        return Err(String::from_str("The function cannot be registered"));
    }
    let string = match Parser::print_tree(&tree, fl) {
        Ok(s) => s,
        Err(e) => {
            return Err(e);
        },
    };
    match data_base.register_func(key, tree, variable.clone()) {
        Ok(_) => {},
        Err(e) => {
            return Err(e);
        },
    }
    let mut output = String::from_str("  ");
    output.append(string.as_str());
    output.append("\n");
    Ok((string, output))
}

/// Evaluates one input line in a session.
///
/// The line is one of: `variables`, `functions` or `history`, which list
/// what the session holds; `expr = ?`, which evaluates; `expr = expr ?`,
/// which solves; `name = expr`, which binds a number; and
/// `name(variable) = expr`, which defines a function. The reply is the text
/// for the history and the text to show. A line that fails leaves the
/// store as it was.
pub fn compute<F: Fn(Query) -> Answer>(
    code: &String,
    data_base: &mut DataBase,
    commands: &Commands,
    fl: &F,
) -> (res: Result<(String, String), String>)
    requires
        old(data_base).wf(),
        lawful(fl),
    ensures
        final(data_base).wf(),
        ({
            let c = computed(env_of(old(data_base), fl), code@, commands@);
            final(data_base)@ == c.store && reply_matches(res, c.reply)
        }),
        res is Err ==> final(data_base)@ == old(data_base)@,
{
    let mut lexer = Lexer::new(code);
    let vec = match lexer.make_token_vec() {
        Ok(v) => v,
        Err(e) => {
            return Err(e);
        },
    };
    if Parser::is_show_variable(&vec) {
        return show_variable(data_base, fl);
    } else if Parser::is_show_functions(&vec) {
        return show_function(data_base, fl);
    } else if Parser::is_show_commands(&vec) {
        let shown = show_commands(commands);
        return Ok(shown);
    }
    let ghost tokens = lexemes(vec@);
    let (left_vec, right_vec) = match Parser::separate_equal(vec) {
        Ok(p) => p,
        Err(e) => {
            return Err(e);
        },
    };
    proof {
        let at = equal_positions(tokens, 0);
        assert(lexemes(left_vec@) =~= tokens.subrange(0, at[0]));
        assert(lexemes(right_vec@) =~= tokens.subrange(at[0] + 1, tokens.len() as int));
    }
    if Parser::is_question_tokens(&right_vec) {
        calculate(left_vec, data_base, fl)
    } else if Parser::is_solution_equation(&right_vec) {
        solution_equation(left_vec, right_vec, data_base, fl)
    } else if Parser::is_variable_register(&left_vec) {
        register(left_vec, right_vec, data_base, fl)
    } else if Parser::is_func_register(&left_vec) {
        func_register(left_vec, right_vec, data_base, fl)
    } else {
        Ok((String::from_str("Unsupported format"), String::from_str("  Unsupported format\n")))
    }
}

} // verus!
