use crate::identifier::str_equal;
use vstd::prelude::*;
use vstd::string::StringExecFns;

verus! {

/// A token of PRISM source text.
///
/// Keywords, syntax elements and operators carry no data; identifiers and number literals keep
/// their source text.
#[derive(Debug, PartialEq, Eq)]
pub enum Token {
    /// The keyword `dtmc`.
    Dtmc,
    /// The keyword `ctmc`.
    Ctmc,
    /// The keyword `mdp`.
    Mdp,
    /// The keyword `pta`.
    Pta,
    /// The keyword `pomdp`.
    Pomdp,
    /// The keyword `popta`.
    Popta,
    /// The keyword `module`.
    Module,
    /// The keyword `endmodule`.
    EndModule,
    /// The keyword `const`.
    Const,
    /// The keyword `global`.
    Global,
    /// The keyword `label`.
    Label,
    /// The keyword `formula`.
    Formula,
    /// The keyword `init`.
    Init,
    /// The keyword `endinit`.
    EndInit,
    /// The keyword `rewards`.
    Rewards,
    /// The keyword `endrewards`.
    EndRewards,
    /// The type keyword `int`.
    Int,
    /// The type keyword `double`.
    Double,
    /// The type keyword `bool`.
    Bool,
    /// The probability operator `P`.
    P,
    /// The probability operator `Pmax` (also written `PMax`).
    PMax,
    /// The probability operator `Pmin` (also written `PMin`).
    PMin,
    /// The reward operator `R`.
    R,
    /// The reward operator `Rmax` (also written `RMax`).
    RMax,
    /// The reward operator `Rmin` (also written `RMin`).
    RMin,
    /// The function `max` (also written `Max`).
    Max,
    /// The function `min` (also written `Min`).
    Min,
    /// The time operator `T`.
    T,
    /// The time operator `Tmax` (also written `TMax`).
    TMax,
    /// The time operator `Tmin` (also written `TMin`).
    TMin,
    /// The long-run average operator `LRA`.
    LRA,
    /// The long-run average operator `LRAmax` (also written `LRAMax`).
    LRAMax,
    /// The long-run average operator `LRAmin` (also written `LRAMin`).
    LRAMin,
    /// The instantaneous reward bound `I`.
    Instantaneous,
    /// The cumulative reward bound `C`.
    Cumulative,
    /// The path formula operator `F` (finally).
    Finally,
    /// The path formula operator `G` (generally).
    Generally,
    /// The path formula operator `U` (until).
    Until,
    /// An identifier with the given text.
    Identifier(String),
    /// A left square bracket: `[`.
    LeftSqBracket,
    /// A right square bracket: `]`.
    RightSqBracket,
    /// A left parenthesis: `(`.
    LeftBracket,
    /// A right parenthesis: `)`.
    RightBracket,
    /// A left curly bracket: `{`.
    LeftCurlyBracket,
    /// A right curly bracket: `}`.
    RightCurlyBracket,
    /// An arrow: `->`.
    Arrow,
    /// A primed assignment: `'=` (apostrophe, optional whitespace, equals sign).
    AssignedTo,
    /// A colon: `:`.
    Colon,
    /// A double dot: `..`.
    DotDot,
    /// A semicolon: `;`.
    Semicolon,
    /// A double quote: `"`.
    Quote,
    /// A comma: `,`.
    Comma,
    /// An integer literal, kept as its source text.
    Integer(String),
    /// A floating-point literal, kept as its source text.
    Float(String),
    /// The boolean literal `true`.
    True,
    /// The boolean literal `false`.
    False,
    /// A minus sign: `-`.
    Minus,
    /// A multiplication sign: `*`.
    Multiply,
    /// A division sign: `/`.
    Divide,
    /// A modulo sign: `%`.
    Modulo,
    /// A plus sign: `+`.
    Plus,
    /// A less-than sign: `<`.
    LessThan,
    /// A less-than-or-equal sign: `<=`.
    LessOrEqual,
    /// A greater-than sign: `>`.
    GreaterThan,
    /// A greater-than-or-equal sign: `>=`.
    GreaterOrEqual,
    /// An equals sign: `=`.
    Equal,
    /// A not-equal sign: `!=`.
    NotEqual,
    /// A negation sign: `!`.
    Negation,
    /// A logical and sign: `&`.
    And,
    /// A logical or sign: `|`.
    Or,
    /// An if-and-only-if sign: `<=>`.
    IfAndOnlyIf,
    /// An implies sign: `=>`.
    Implies,
    /// A question mark: `?`.
    Questionmark,
}

/// The mathematical value of a [`Token`]: the same variants, with text as a character
/// sequence.
pub enum TokenValue {
    /// The keyword `dtmc`.
    Dtmc,
    /// The keyword `ctmc`.
    Ctmc,
    /// The keyword `mdp`.
    Mdp,
    /// The keyword `pta`.
    Pta,
    /// The keyword `pomdp`.
    Pomdp,
    /// The keyword `popta`.
    Popta,
    /// The keyword `module`.
    Module,
    /// The keyword `endmodule`.
    EndModule,
    /// The keyword `const`.
    Const,
    /// The keyword `global`.
    Global,
    /// The keyword `label`.
    Label,
    /// The keyword `formula`.
    Formula,
    /// The keyword `init`.
    Init,
    /// The keyword `endinit`.
    EndInit,
    /// The keyword `rewards`.
    Rewards,
    /// The keyword `endrewards`.
    EndRewards,
    /// The type keyword `int`.
    Int,
    /// The type keyword `double`.
    Double,
    /// The type keyword `bool`.
    Bool,
    /// The probability operator `P`.
    P,
    /// The probability operator `Pmax` (also written `PMax`).
    PMax,
    /// The probability operator `Pmin` (also written `PMin`).
    PMin,
    /// The reward operator `R`.
    R,
    /// The reward operator `Rmax` (also written `RMax`).
    RMax,
    /// The reward operator `Rmin` (also written `RMin`).
    RMin,
    /// The function `max` (also written `Max`).
    Max,
    /// The function `min` (also written `Min`).
    Min,
    /// The time operator `T`.
    T,
    /// The time operator `Tmax` (also written `TMax`).
    TMax,
    /// The time operator `Tmin` (also written `TMin`).
    TMin,
    /// The long-run average operator `LRA`.
    LRA,
    /// The long-run average operator `LRAmax` (also written `LRAMax`).
    LRAMax,
    /// The long-run average operator `LRAmin` (also written `LRAMin`).
    LRAMin,
    /// The instantaneous reward bound `I`.
    Instantaneous,
    /// The cumulative reward bound `C`.
    Cumulative,
    /// The path formula operator `F` (finally).
    Finally,
    /// The path formula operator `G` (generally).
    Generally,
    /// The path formula operator `U` (until).
    Until,
    /// An identifier with the given text.
    Identifier(Seq<char>),
    /// A left square bracket: `[`.
    LeftSqBracket,
    /// A right square bracket: `]`.
    RightSqBracket,
    /// A left parenthesis: `(`.
    LeftBracket,
    /// A right parenthesis: `)`.
    RightBracket,
    /// A left curly bracket: `{`.
    LeftCurlyBracket,
    /// A right curly bracket: `}`.
    RightCurlyBracket,
    /// An arrow: `->`.
    Arrow,
    /// A primed assignment: `'=` (apostrophe, optional whitespace, equals sign).
    AssignedTo,
    /// A colon: `:`.
    Colon,
    /// A double dot: `..`.
    DotDot,
    /// A semicolon: `;`.
    Semicolon,
    /// A double quote: `"`.
    Quote,
    /// A comma: `,`.
    Comma,
    /// An integer literal, kept as its source text.
    Integer(Seq<char>),
    /// A floating-point literal, kept as its source text.
    Float(Seq<char>),
    /// The boolean literal `true`.
    True,
    /// The boolean literal `false`.
    False,
    /// A minus sign: `-`.
    Minus,
    /// A multiplication sign: `*`.
    Multiply,
    /// A division sign: `/`.
    Divide,
    /// A modulo sign: `%`.
    Modulo,
    /// A plus sign: `+`.
    Plus,
    /// A less-than sign: `<`.
    LessThan,
    /// A less-than-or-equal sign: `<=`.
    LessOrEqual,
    /// A greater-than sign: `>`.
    GreaterThan,
    /// A greater-than-or-equal sign: `>=`.
    GreaterOrEqual,
    /// An equals sign: `=`.
    Equal,
    /// A not-equal sign: `!=`.
    NotEqual,
    /// A negation sign: `!`.
    Negation,
    /// A logical and sign: `&`.
    And,
    /// A logical or sign: `|`.
    Or,
    /// An if-and-only-if sign: `<=>`.
    IfAndOnlyIf,
    /// An implies sign: `=>`.
    Implies,
    /// A question mark: `?`.
    Questionmark,
}

impl View for Token {
    type V = TokenValue;

    open spec fn view(&self) -> TokenValue {
        match self {
            Token::Dtmc => TokenValue::Dtmc,
            Token::Ctmc => TokenValue::Ctmc,
            Token::Mdp => TokenValue::Mdp,
            Token::Pta => TokenValue::Pta,
            Token::Pomdp => TokenValue::Pomdp,
            Token::Popta => TokenValue::Popta,
            Token::Module => TokenValue::Module,
            Token::EndModule => TokenValue::EndModule,
            Token::Const => TokenValue::Const,
            Token::Global => TokenValue::Global,
            Token::Label => TokenValue::Label,
            Token::Formula => TokenValue::Formula,
            Token::Init => TokenValue::Init,
            Token::EndInit => TokenValue::EndInit,
            Token::Rewards => TokenValue::Rewards,
            Token::EndRewards => TokenValue::EndRewards,
            Token::Int => TokenValue::Int,
            Token::Double => TokenValue::Double,
            Token::Bool => TokenValue::Bool,
            Token::P => TokenValue::P,
            Token::PMax => TokenValue::PMax,
            Token::PMin => TokenValue::PMin,
            Token::R => TokenValue::R,
            Token::RMax => TokenValue::RMax,
            Token::RMin => TokenValue::RMin,
            Token::Max => TokenValue::Max,
            Token::Min => TokenValue::Min,
            Token::T => TokenValue::T,
            Token::TMax => TokenValue::TMax,
            Token::TMin => TokenValue::TMin,
            Token::LRA => TokenValue::LRA,
            Token::LRAMax => TokenValue::LRAMax,
            Token::LRAMin => TokenValue::LRAMin,
            Token::Instantaneous => TokenValue::Instantaneous,
            Token::Cumulative => TokenValue::Cumulative,
            Token::Finally => TokenValue::Finally,
            Token::Generally => TokenValue::Generally,
            Token::Until => TokenValue::Until,
            Token::Identifier(text) => TokenValue::Identifier(text@),
            Token::LeftSqBracket => TokenValue::LeftSqBracket,
            Token::RightSqBracket => TokenValue::RightSqBracket,
            Token::LeftBracket => TokenValue::LeftBracket,
            Token::RightBracket => TokenValue::RightBracket,
            Token::LeftCurlyBracket => TokenValue::LeftCurlyBracket,
            Token::RightCurlyBracket => TokenValue::RightCurlyBracket,
            Token::Arrow => TokenValue::Arrow,
            Token::AssignedTo => TokenValue::AssignedTo,
            Token::Colon => TokenValue::Colon,
            Token::DotDot => TokenValue::DotDot,
            Token::Semicolon => TokenValue::Semicolon,
            Token::Quote => TokenValue::Quote,
            Token::Comma => TokenValue::Comma,
            Token::Integer(text) => TokenValue::Integer(text@),
            Token::Float(text) => TokenValue::Float(text@),
            Token::True => TokenValue::True,
            Token::False => TokenValue::False,
            Token::Minus => TokenValue::Minus,
            Token::Multiply => TokenValue::Multiply,
            Token::Divide => TokenValue::Divide,
            Token::Modulo => TokenValue::Modulo,
            Token::Plus => TokenValue::Plus,
            Token::LessThan => TokenValue::LessThan,
            Token::LessOrEqual => TokenValue::LessOrEqual,
            Token::GreaterThan => TokenValue::GreaterThan,
            Token::GreaterOrEqual => TokenValue::GreaterOrEqual,
            Token::Equal => TokenValue::Equal,
            Token::NotEqual => TokenValue::NotEqual,
            Token::Negation => TokenValue::Negation,
            Token::And => TokenValue::And,
            Token::Or => TokenValue::Or,
            Token::IfAndOnlyIf => TokenValue::IfAndOnlyIf,
            Token::Implies => TokenValue::Implies,
            Token::Questionmark => TokenValue::Questionmark,
        }
    }
}

/// The text by which a token is displayed: the keyword or symbol itself, or the kept source text.
pub open spec fn token_text(token: TokenValue) -> Seq<char> {
    match token {
        TokenValue::Dtmc => "dtmc"@,
        TokenValue::Ctmc => "ctmc"@,
        TokenValue::Mdp => "mdp"@,
        TokenValue::Pta => "pta"@,
        TokenValue::Pomdp => "pomdp"@,
        TokenValue::Popta => "popta"@,
        TokenValue::Module => "module"@,
        TokenValue::EndModule => "endmodule"@,
        TokenValue::Const => "const"@,
        TokenValue::Global => "global"@,
        TokenValue::Label => "label"@,
        TokenValue::Formula => "formula"@,
        TokenValue::Init => "init"@,
        TokenValue::EndInit => "endinit"@,
        TokenValue::Rewards => "rewards"@,
        TokenValue::EndRewards => "endrewards"@,
        TokenValue::Int => "int"@,
        TokenValue::Double => "double"@,
        TokenValue::Bool => "bool"@,
        TokenValue::P => "P"@,
        TokenValue::PMax => "Pmax"@,
        TokenValue::PMin => "Pmin"@,
        TokenValue::R => "R"@,
        TokenValue::RMax => "Rmax"@,
        TokenValue::RMin => "Rmin"@,
        TokenValue::Max => "max"@,
        TokenValue::Min => "min"@,
        TokenValue::T => "T"@,
        TokenValue::TMax => "Tmax"@,
        TokenValue::TMin => "Tmin"@,
        TokenValue::LRA => "LRA"@,
        TokenValue::LRAMax => "LRAmax"@,
        TokenValue::LRAMin => "LRAmin"@,
        TokenValue::Instantaneous => "I"@,
        TokenValue::Cumulative => "C"@,
        TokenValue::Finally => "F"@,
        TokenValue::Generally => "G"@,
        TokenValue::Until => "U"@,
        TokenValue::Identifier(text) => text,
        TokenValue::LeftSqBracket => "["@,
        TokenValue::RightSqBracket => "]"@,
        TokenValue::LeftBracket => "("@,
        TokenValue::RightBracket => ")"@,
        TokenValue::LeftCurlyBracket => "{"@,
        TokenValue::RightCurlyBracket => "}"@,
        TokenValue::Arrow => "->"@,
        TokenValue::AssignedTo => "'="@,
        TokenValue::Colon => ":"@,
        TokenValue::DotDot => ".."@,
        TokenValue::Semicolon => ";"@,
        TokenValue::Quote => "\""@,
        TokenValue::Comma => ","@,
        TokenValue::Integer(text) => text,
        TokenValue::Float(text) => text,
        TokenValue::True => "true"@,
        TokenValue::False => "false"@,
        TokenValue::Minus => "-"@,
        TokenValue::Multiply => "*"@,
        TokenValue::Divide => "/"@,
        TokenValue::Modulo => "%"@,
        TokenValue::Plus => "+"@,
        TokenValue::LessThan => "<"@,
        TokenValue::LessOrEqual => "<="@,
        TokenValue::GreaterThan => ">"@,
        TokenValue::GreaterOrEqual => ">="@,
        TokenValue::Equal => "="@,
        TokenValue::NotEqual => "!="@,
        TokenValue::Negation => "!"@,
        TokenValue::And => "&"@,
        TokenValue::Or => "|"@,
        TokenValue::IfAndOnlyIf => "<=>"@,
        TokenValue::Implies => "=>"@,
        TokenValue::Questionmark => "?"@,
    }
}

/// The token that a word made of identifier characters stands for: a keyword or literal where
/// the word is one, and an identifier otherwise.
pub open spec fn word_token(word: Seq<char>) -> TokenValue {
    if word == "dtmc"@ {
        TokenValue::Dtmc
    } else if word == "ctmc"@ {
        TokenValue::Ctmc
    } else if word == "mdp"@ {
        TokenValue::Mdp
    } else if word == "pta"@ {
        TokenValue::Pta
    } else if word == "pomdp"@ {
        TokenValue::Pomdp
    } else if word == "popta"@ {
        TokenValue::Popta
    } else if word == "module"@ {
        TokenValue::Module
    } else if word == "endmodule"@ {
        TokenValue::EndModule
    } else if word == "const"@ {
        TokenValue::Const
    } else if word == "global"@ {
        TokenValue::Global
    } else if word == "label"@ {
        TokenValue::Label
    } else if word == "formula"@ {
        TokenValue::Formula
    } else if word == "init"@ {
        TokenValue::Init
    } else if word == "endinit"@ {
        TokenValue::EndInit
    } else if word == "rewards"@ {
        TokenValue::Rewards
    } else if word == "endrewards"@ {
        TokenValue::EndRewards
    } else if word == "int"@ {
        TokenValue::Int
    } else if word == "double"@ {
        TokenValue::Double
    } else if word == "bool"@ {
        TokenValue::Bool
    } else if word == "PMax"@ {
        TokenValue::PMax
    } else if word == "Pmax"@ {
        TokenValue::PMax
    } else if word == "PMin"@ {
        TokenValue::PMin
    } else if word == "Pmin"@ {
        TokenValue::PMin
    } else if word == "P"@ {
        TokenValue::P
    } else if word == "RMax"@ {
        TokenValue::RMax
    } else if word == "Rmax"@ {
        TokenValue::RMax
    } else if word == "RMin"@ {
        TokenValue::RMin
    } else if word == "Rmin"@ {
        TokenValue::RMin
    } else if word == "R"@ {
        TokenValue::R
    } else if word == "TMax"@ {
        TokenValue::TMax
    } else if word == "Tmax"@ {
        TokenValue::TMax
    } else if word == "TMin"@ {
        TokenValue::TMin
    } else if word == "Tmin"@ {
        TokenValue::TMin
    } else if word == "T"@ {
        TokenValue::T
    } else if word == "LRA"@ {
        TokenValue::LRA
    } else if word == "LRAMax"@ {
        TokenValue::LRAMax
    } else if word == "LRAmax"@ {
        TokenValue::LRAMax
    } else if word == "LRAMin"@ {
        TokenValue::LRAMin
    } else if word == "LRAmin"@ {
        TokenValue::LRAMin
    } else if word == "I"@ {
        TokenValue::Instantaneous
    } else if word == "C"@ {
        TokenValue::Cumulative
    } else if word == "Max"@ {
        TokenValue::Max
    } else if word == "max"@ {
        TokenValue::Max
    } else if word == "Min"@ {
        TokenValue::Min
    } else if word == "min"@ {
        TokenValue::Min
    } else if word == "F"@ {
        TokenValue::Finally
    } else if word == "G"@ {
        TokenValue::Generally
    } else if word == "true"@ {
        TokenValue::True
    } else if word == "false"@ {
        TokenValue::False
    } else {
        TokenValue::Identifier(word)
    }
}

impl Token {
    /// Appends the text by which this token is displayed to `out`.
    pub fn append_text(&self, out: &mut String)
        ensures
            final(out)@ == old(out)@ + token_text(self@),
    {
        match self {
            Token::Dtmc => out.append("dtmc"),
            Token::Ctmc => out.append("ctmc"),
            Token::Mdp => out.append("mdp"),
            Token::Pta => out.append("pta"),
            Token::Pomdp => out.append("pomdp"),
            Token::Popta => out.append("popta"),
            Token::Module => out.append("module"),
            Token::EndModule => out.append("endmodule"),
            Token::Const => out.append("const"),
            Token::Global => out.append("global"),
            Token::Label => out.append("label"),
            Token::Formula => out.append("formula"),
            Token::Init => out.append("init"),
            Token::EndInit => out.append("endinit"),
            Token::Rewards => out.append("rewards"),
            Token::EndRewards => out.append("endrewards"),
            Token::Int => out.append("int"),
            Token::Double => out.append("double"),
            Token::Bool => out.append("bool"),
            Token::P => out.append("P"),
            Token::PMax => out.append("Pmax"),
            Token::PMin => out.append("Pmin"),
            Token::R => out.append("R"),
            Token::RMax => out.append("Rmax"),
            Token::RMin => out.append("Rmin"),
            Token::Max => out.append("max"),
            Token::Min => out.append("min"),
            Token::T => out.append("T"),
            Token::TMax => out.append("Tmax"),
            Token::TMin => out.append("Tmin"),
            Token::LRA => out.append("LRA"),
            Token::LRAMax => out.append("LRAmax"),
            Token::LRAMin => out.append("LRAmin"),
            Token::Instantaneous => out.append("I"),
            Token::Cumulative => out.append("C"),
            Token::Finally => out.append("F"),
            Token::Generally => out.append("G"),
            Token::Until => out.append("U"),
            Token::Identifier(text) => out.append(text.as_str()),
            Token::LeftSqBracket => out.append("["),
            Token::RightSqBracket => out.append("]"),
            Token::LeftBracket => out.append("("),
            Token::RightBracket => out.append(")"),
            Token::LeftCurlyBracket => out.append("{"),
            Token::RightCurlyBracket => out.append("}"),
            Token::Arrow => out.append("->"),
            Token::AssignedTo => out.append("'="),
            Token::Colon => out.append(":"),
            Token::DotDot => out.append(".."),
            Token::Semicolon => out.append(";"),
            Token::Quote => out.append("\""),
            Token::Comma => out.append(","),
            Token::Integer(text) => out.append(text.as_str()),
            Token::Float(text) => out.append(text.as_str()),
            Token::True => out.append("true"),
            Token::False => out.append("false"),
            Token::Minus => out.append("-"),
            Token::Multiply => out.append("*"),
            Token::Divide => out.append("/"),
            Token::Modulo => out.append("%"),
            Token::Plus => out.append("+"),
            Token::LessThan => out.append("<"),
            Token::LessOrEqual => out.append("<="),
            Token::GreaterThan => out.append(">"),
            Token::GreaterOrEqual => out.append(">="),
            Token::Equal => out.append("="),
            Token::NotEqual => out.append("!="),
            Token::Negation => out.append("!"),
            Token::And => out.append("&"),
            Token::Or => out.append("|"),
            Token::IfAndOnlyIf => out.append("<=>"),
            Token::Implies => out.append("=>"),
            Token::Questionmark => out.append("?"),
        }
    }

    /// The text by which this token is displayed.
    pub fn to_string(&self) -> (r: String)
        ensures
            r@ == token_text(self@),
    {
        let mut out = String::new();
        self.append_text(&mut out);
        assert(out@ =~= token_text(self@));
        out
    }

    /// A copy of this token.
    pub fn duplicate(&self) -> (r: Token)
        ensures
            r@ == self@,
    {
        match self {
            Token::Dtmc => Token::Dtmc,
            Token::Ctmc => Token::Ctmc,
            Token::Mdp => Token::Mdp,
            Token::Pta => Token::Pta,
            Token::Pomdp => Token::Pomdp,
            Token::Popta => Token::Popta,
            Token::Module => Token::Module,
            Token::EndModule => Token::EndModule,
            Token::Const => Token::Const,
            Token::Global => Token::Global,
            Token::Label => Token::Label,
            Token::Formula => Token::Formula,
            Token::Init => Token::Init,
            Token::EndInit => Token::EndInit,
            Token::Rewards => Token::Rewards,
            Token::EndRewards => Token::EndRewards,
            Token::Int => Token::Int,
            Token::Double => Token::Double,
            Token::Bool => Token::Bool,
            Token::P => Token::P,
            Token::PMax => Token::PMax,
            Token::PMin => Token::PMin,
            Token::R => Token::R,
            Token::RMax => Token::RMax,
            Token::RMin => Token::RMin,
            Token::Max => Token::Max,
            Token::Min => Token::Min,
            Token::T => Token::T,
            Token::TMax => Token::TMax,
            Token::TMin => Token::TMin,
            Token::LRA => Token::LRA,
            Token::LRAMax => Token::LRAMax,
            Token::LRAMin => Token::LRAMin,
            Token::Instantaneous => Token::Instantaneous,
            Token::Cumulative => Token::Cumulative,
            Token::Finally => Token::Finally,
            Token::Generally => Token::Generally,
            Token::Until => Token::Until,
            Token::Identifier(text) => Token::Identifier(text.clone()),
            Token::LeftSqBracket => Token::LeftSqBracket,
            Token::RightSqBracket => Token::RightSqBracket,
            Token::LeftBracket => Token::LeftBracket,
            Token::RightBracket => Token::RightBracket,
            Token::LeftCurlyBracket => Token::LeftCurlyBracket,
            Token::RightCurlyBracket => Token::RightCurlyBracket,
            Token::Arrow => Token::Arrow,
            Token::AssignedTo => Token::AssignedTo,
            Token::Colon => Token::Colon,
            Token::DotDot => Token::DotDot,
            Token::Semicolon => Token::Semicolon,
            Token::Quote => Token::Quote,
            Token::Comma => Token::Comma,
            Token::Integer(text) => Token::Integer(text.clone()),
            Token::Float(text) => Token::Float(text.clone()),
            Token::True => Token::True,
            Token::False => Token::False,
            Token::Minus => Token::Minus,
            Token::Multiply => Token::Multiply,
            Token::Divide => Token::Divide,
            Token::Modulo => Token::Modulo,
            Token::Plus => Token::Plus,
            Token::LessThan => Token::LessThan,
            Token::LessOrEqual => Token::LessOrEqual,
            Token::GreaterThan => Token::GreaterThan,
            Token::GreaterOrEqual => Token::GreaterOrEqual,
            Token::Equal => Token::Equal,
            Token::NotEqual => Token::NotEqual,
            Token::Negation => Token::Negation,
            Token::And => Token::And,
            Token::Or => Token::Or,
            Token::IfAndOnlyIf => Token::IfAndOnlyIf,
            Token::Implies => Token::Implies,
            Token::Questionmark => Token::Questionmark,
        }
    }
}

/// The token for a word made of identifier characters, see [`word_token`].
pub fn token_for_word(word: &str) -> (r: Token)
    ensures
        r@ == word_token(word@),
{
    if str_equal(word, "dtmc") {
        Token::Dtmc
    } else if str_equal(word, "ctmc") {
        Token::Ctmc
    } else if str_equal(word, "mdp") {
        Token::Mdp
    } else if str_equal(word, "pta") {
        Token::Pta
    } else if str_equal(word, "pomdp") {
        Token::Pomdp
    } else if str_equal(word, "popta") {
        Token::Popta
    } else if str_equal(word, "module") {
        Token::Module
    } else if str_equal(word, "endmodule") {
        Token::EndModule
    } else if str_equal(word, "const") {
        Token::Const
    } else if str_equal(word, "global") {
        Token::Global
    } else if str_equal(word, "label") {
        Token::Label
    } else if str_equal(word, "formula") {
        Token::Formula
    } else if str_equal(word, "init") {
        Token::Init
    } else if str_equal(word, "endinit") {
        Token::EndInit
    } else if str_equal(word, "rewards") {
        Token::Rewards
    } else if str_equal(word, "endrewards") {
        Token::EndRewards
    } else if str_equal(word, "int") {
        Token::Int
    } else if str_equal(word, "double") {
        Token::Double
    } else if str_equal(word, "bool") {
        Token::Bool
    } else if str_equal(word, "PMax") {
        Token::PMax
    } else if str_equal(word, "Pmax") {
        Token::PMax
    } else if str_equal(word, "PMin") {
        Token::PMin
    } else if str_equal(word, "Pmin") {
        Token::PMin
    } else if str_equal(word, "P") {
        Token::P
    } else if str_equal(word, "RMax") {
        Token::RMax
    } else if str_equal(word, "Rmax") {
        Token::RMax
    } else if str_equal(word, "RMin") {
        Token::RMin
    } else if str_equal(word, "Rmin") {
        Token::RMin
    } else if str_equal(word, "R") {
        Token::R
    } else if str_equal(word, "TMax") {
        Token::TMax
    } else if str_equal(word, "Tmax") {
        Token::TMax
    } else if str_equal(word, "TMin") {
        Token::TMin
    } else if str_equal(word, "Tmin") {
        Token::TMin
    } else if str_equal(word, "T") {
        Token::T
    } else if str_equal(word, "LRA") {
        Token::LRA
    } else if str_equal(word, "LRAMax") {
        Token::LRAMax
    } else if str_equal(word, "LRAmax") {
        Token::LRAMax
    } else if str_equal(word, "LRAMin") {
        Token::LRAMin
    } else if str_equal(word, "LRAmin") {
        Token::LRAMin
    } else if str_equal(word, "I") {
        Token::Instantaneous
    } else if str_equal(word, "C") {
        Token::Cumulative
    } else if str_equal(word, "Max") {
        Token::Max
    } else if str_equal(word, "max") {
        Token::Max
    } else if str_equal(word, "Min") {
        Token::Min
    } else if str_equal(word, "min") {
        Token::Min
    } else if str_equal(word, "F") {
        Token::Finally
    } else if str_equal(word, "G") {
        Token::Generally
    } else if str_equal(word, "true") {
        Token::True
    } else if str_equal(word, "false") {
        Token::False
    } else {
        Token::Identifier(String::from_str(word))
    }
}

/// Whether a token carries no text: it is neither an identifier nor a number literal.
pub open spec fn is_plain(t: TokenValue) -> bool {
    !(t is Identifier || t is Integer || t is Float)
}

impl Token {
    /// Whether this token equals `other`, a token that carries no text.
    pub fn is(&self, other: &Token) -> (r: bool)
        requires
            is_plain(other@),
        ensures
            r == (self@ == other@),
    {
        match (self, other) {
            (Token::Dtmc, Token::Dtmc) => true,
            (Token::Ctmc, Token::Ctmc) => true,
            (Token::Mdp, Token::Mdp) => true,
            (Token::Pta, Token::Pta) => true,
            (Token::Pomdp, Token::Pomdp) => true,
            (Token::Popta, Token::Popta) => true,
            (Token::Module, Token::Module) => true,
            (Token::EndModule, Token::EndModule) => true,
            (Token::Const, Token::Const) => true,
            (Token::Global, Token::Global) => true,
            (Token::Label, Token::Label) => true,
            (Token::Formula, Token::Formula) => true,
            (Token::Init, Token::Init) => true,
            (Token::EndInit, Token::EndInit) => true,
            (Token::Rewards, Token::Rewards) => true,
            (Token::EndRewards, Token::EndRewards) => true,
            (Token::Int, Token::Int) => true,
            (Token::Double, Token::Double) => true,
            (Token::Bool, Token::Bool) => true,
            (Token::P, Token::P) => true,
            (Token::PMax, Token::PMax) => true,
            (Token::PMin, Token::PMin) => true,
            (Token::R, Token::R) => true,
            (Token::RMax, Token::RMax) => true,
            (Token::RMin, Token::RMin) => true,
            (Token::Max, Token::Max) => true,
            (Token::Min, Token::Min) => true,
            (Token::T, Token::T) => true,
            (Token::TMax, Token::TMax) => true,
            (Token::TMin, Token::TMin) => true,
            (Token::LRA, Token::LRA) => true,
            (Token::LRAMax, Token::LRAMax) => true,
            (Token::LRAMin, Token::LRAMin) => true,
            (Token::Instantaneous, Token::Instantaneous) => true,
            (Token::Cumulative, Token::Cumulative) => true,
            (Token::Finally, Token::Finally) => true,
            (Token::Generally, Token::Generally) => true,
            (Token::Until, Token::Until) => true,
            (Token::LeftSqBracket, Token::LeftSqBracket) => true,
            (Token::RightSqBracket, Token::RightSqBracket) => true,
            (Token::LeftBracket, Token::LeftBracket) => true,
            (Token::RightBracket, Token::RightBracket) => true,
            (Token::LeftCurlyBracket, Token::LeftCurlyBracket) => true,
            (Token::RightCurlyBracket, Token::RightCurlyBracket) => true,
            (Token::Arrow, Token::Arrow) => true,
            (Token::AssignedTo, Token::AssignedTo) => true,
            (Token::Colon, Token::Colon) => true,
            (Token::DotDot, Token::DotDot) => true,
            (Token::Semicolon, Token::Semicolon) => true,
            (Token::Quote, Token::Quote) => true,
            (Token::Comma, Token::Comma) => true,
            (Token::True, Token::True) => true,
            (Token::False, Token::False) => true,
            (Token::Minus, Token::Minus) => true,
            (Token::Multiply, Token::Multiply) => true,
            (Token::Divide, Token::Divide) => true,
            (Token::Modulo, Token::Modulo) => true,
            (Token::Plus, Token::Plus) => true,
            (Token::LessThan, Token::LessThan) => true,
            (Token::LessOrEqual, Token::LessOrEqual) => true,
            (Token::GreaterThan, Token::GreaterThan) => true,
            (Token::GreaterOrEqual, Token::GreaterOrEqual) => true,
            (Token::Equal, Token::Equal) => true,
            (Token::NotEqual, Token::NotEqual) => true,
            (Token::Negation, Token::Negation) => true,
            (Token::And, Token::And) => true,
            (Token::Or, Token::Or) => true,
            (Token::IfAndOnlyIf, Token::IfAndOnlyIf) => true,
            (Token::Implies, Token::Implies) => true,
            (Token::Questionmark, Token::Questionmark) => true,
            _ => false,
        }
    }
}

} // verus!
