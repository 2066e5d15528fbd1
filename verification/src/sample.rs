//! The sample bank a new installation can start from: one subject with its
//! fields and units, and a handful of problems. The caller stores it.
use vstd::prelude::*;
use crate::text::{chars_of, string_of};

verus! {

pub const SAMPLE1_TITLE: &'static str = "二次関数の頂点";
pub const SAMPLE1_STATEMENT: &'static str = "二次関数 $y = x^2 - 4x + 7$ を $y = a(x-p)^2 + q$ の形に変形し、頂点の座標を求めよ。";
pub const SAMPLE1_ANSWER: &'static str = "$y = x^2 - 4x + 7 = (x-2)^2 + 3$\n\nよって頂点の座標は $(2,\\ 3)$ である。";
pub const SAMPLE1_EXPLANATION: &'static str = "平方完成を行う。$x^2 - 4x$ の部分に注目し、\n\\[ x^2 - 4x = (x-2)^2 - 4 \\]\nと変形することがポイントである。";
pub const SAMPLE2_TITLE: &'static str = "二次関数の決定";
pub const SAMPLE2_STATEMENT: &'static str = "放物線 $y = ax^2 + bx + c$ が3点 $(0,\\ 1)$，$(1,\\ 2)$，$(-1,\\ 6)$ を通るとき、定数 $a,\\ b,\\ c$ の値を求めよ。";
pub const SAMPLE2_ANSWER: &'static str = "$(0,\\ 1)$ を通るので $c = 1$。\n\n$(1,\\ 2)$ より $a + b + c = 2$，$(-1,\\ 6)$ より $a - b + c = 6$。\n\nこれを解いて $a = 3,\\ b = -2,\\ c = 1$。";
pub const SAMPLE2_EXPLANATION: &'static str = "通る点の座標を代入して連立方程式を作る。$x=0$ の点から $c$ が直ちに決まることに着目すると計算が楽になる。";
pub const SAMPLE3_TITLE: &'static str = "定義域付き最大・最小";
pub const SAMPLE3_STATEMENT: &'static str = "二次関数 $y = x^2 - 2x + 3$（$0 \\leqq x \\leqq 3$）の最大値と最小値を求めよ。";
pub const SAMPLE3_ANSWER: &'static str = "$y = (x-1)^2 + 2$ より軸は $x = 1$。\n\n\\begin{itemize}\n\\item 最小値：$x = 1$ のとき $y = 2$\n\\item 最大値：$x = 3$ のとき $y = 6$\n\\end{itemize}";
pub const SAMPLE3_EXPLANATION: &'static str = "平方完成して軸の位置を確認する。軸 $x=1$ は定義域 $0 \\leqq x \\leqq 3$ に含まれるので、最小値は頂点でとる。最大値は定義域の端のうち軸から遠い方 $x=3$ でとる。";
pub const SAMPLE4_TITLE: &'static str = "判別式と解の個数";
pub const SAMPLE4_STATEMENT: &'static str = "二次方程式 $x^2 + 2kx + k + 2 = 0$ が異なる2つの実数解をもつとき、定数 $k$ の値の範囲を求めよ。";
pub const SAMPLE4_ANSWER: &'static str = "判別式を $D$ とすると\n\\[ \\frac{D}{4} = k^2 - (k + 2) = k^2 - k - 2 = (k-2)(k+1) \\]\n異なる2つの実数解をもつ条件は $D > 0$ であるから\n\\[ (k-2)(k+1) > 0 \\]\nよって $k < -1,\\ 2 < k$。";
pub const SAMPLE4_EXPLANATION: &'static str = "$x^2$ の係数が1、$x$ の係数が $2kx$ と偶数の形なので $D/4$ を使うと計算が簡単になる。";
pub const SAMPLE5_TITLE: &'static str = "常に正となる条件";
pub const SAMPLE5_STATEMENT: &'static str = "すべての実数 $x$ に対して $x^2 + 2ax + 4 > 0$ が成り立つような定数 $a$ の値の範囲を求めよ。";
pub const SAMPLE5_ANSWER: &'static str = "$x^2$ の係数は正なので、条件は判別式 $D < 0$。\n\\[ \\frac{D}{4} = a^2 - 4 < 0 \\]\nよって $-2 < a < 2$。";
pub const SAMPLE5_EXPLANATION: &'static str = "下に凸の放物線が常に $x$ 軸より上にある条件は、$x$ 軸と共有点をもたないこと、すなわち $D < 0$ である。グラフのイメージを持つことが大切。";
pub const SAMPLE6_TITLE: &'static str = "順列の基本";
pub const SAMPLE6_STATEMENT: &'static str = "男子4人、女子3人が1列に並ぶとき、次の並び方は何通りあるか。\n\\begin{enumerate}\n\\item 7人が自由に並ぶ。\n\\item 女子3人が隣り合う。\n\\end{enumerate}";
pub const SAMPLE6_ANSWER: &'static str = "\\begin{enumerate}\n\\item $7! = 5040$（通り）\n\\item 女子3人をひとまとめにすると5つのものの順列で $5!$、女子内部の並びが $3!$。\n\\[ 5! \\times 3! = 120 \\times 6 = 720 \\text{（通り）} \\]\n\\end{enumerate}";
pub const SAMPLE6_EXPLANATION: &'static str = "「隣り合う」ものはひとまとめにして考えるのが定石。まとめた内部の並べ方を掛け合わせることを忘れないこと。";

/// A sample problem: the unit it belongs to (a position in the sample's
/// units), its texts, its difficulty and its tags.
pub struct SampleProblem {
    pub unit: usize,
    pub title: String,
    pub statement: String,
    pub answer: String,
    pub explanation: String,
    pub difficulty: String,
    pub tags: Vec<String>,
}

/// The sample bank. A field names its subject and a unit its field by position;
/// each comes with its place among its siblings.
pub struct SampleBank {
    pub subjects: Vec<String>,
    pub fields: Vec<(usize, String, i64)>,
    pub units: Vec<(usize, String, i64)>,
    pub problems: Vec<SampleProblem>,
}

pub open spec fn views_of(v: Seq<String>) -> Seq<Seq<char>> {
    v.map_values(|s: String| s@)
}

fn text(s: &str) -> (r: String)
    ensures
        r@ == s@,
{
    string_of(&chars_of(s))
}

fn texts(a: &str, b: &str, c: &str) -> (r: Vec<String>)
    ensures
        views_of(r@) == seq![a@, b@, c@],
{
    let r = vec![text(a), text(b), text(c)];
    assert(views_of(r@) =~= seq![a@, b@, c@]);
    r
}

fn two_texts(a: &str, b: &str) -> (r: Vec<String>)
    ensures
        views_of(r@) == seq![a@, b@],
{
    let r = vec![text(a), text(b)];
    assert(views_of(r@) =~= seq![a@, b@]);
    r
}

/// What the sample problem at position `k` holds.
pub open spec fn sample_problem_is(p: SampleProblem, unit: usize, title: &str, statement: &str, answer: &str, explanation: &str, difficulty: Seq<char>, tags: Seq<Seq<char>>) -> bool {
    &&& p.unit == unit
    &&& p.title@ == title@
    &&& p.statement@ == statement@
    &&& p.answer@ == answer@
    &&& p.explanation@ == explanation@
    &&& p.difficulty@ == difficulty
    &&& views_of(p.tags@) == tags
}

/// How many subjects the sample adds.
pub open spec fn sample_subject_count() -> nat {
    1
}

/// The sample bank: 数学, with the fields 数I and 数A, five units, and six problems.
pub fn sample_bank() -> (r: SampleBank)
    ensures
        r.subjects@.len() == sample_subject_count(),
        r.subjects@[0]@ == "数学"@,
        r.fields@.len() == 2,
        r.fields@[0].0 == 0 && r.fields@[0].1@ == "数I"@ && r.fields@[0].2 == 1,
        r.fields@[1].0 == 0 && r.fields@[1].1@ == "数A"@ && r.fields@[1].2 == 2,
        r.units@.len() == 5,
        r.units@[0].0 == 0 && r.units@[0].1@ == "二次関数"@ && r.units@[0].2 == 1,
        r.units@[1].0 == 0 && r.units@[1].1@ == "最大・最小"@ && r.units@[1].2 == 2,
        r.units@[2].0 == 0 && r.units@[2].1@ == "判別式"@ && r.units@[2].2 == 3,
        r.units@[3].0 == 0 && r.units@[3].1@ == "図形と計量"@ && r.units@[3].2 == 4,
        r.units@[4].0 == 1 && r.units@[4].1@ == "場合の数"@ && r.units@[4].2 == 1,
        r.problems@.len() == 6,
        sample_problem_is(r.problems@[0], 0, SAMPLE1_TITLE, SAMPLE1_STATEMENT, SAMPLE1_ANSWER, SAMPLE1_EXPLANATION, "基礎"@, seq!["平方完成"@, "頂点"@]),
        sample_problem_is(r.problems@[1], 0, SAMPLE2_TITLE, SAMPLE2_STATEMENT, SAMPLE2_ANSWER, SAMPLE2_EXPLANATION, "標準"@, seq!["二次関数の決定"@, "連立方程式"@]),
        sample_problem_is(r.problems@[2], 1, SAMPLE3_TITLE, SAMPLE3_STATEMENT, SAMPLE3_ANSWER, SAMPLE3_EXPLANATION, "標準"@, seq!["最大・最小"@, "定義域"@]),
        sample_problem_is(r.problems@[3], 2, SAMPLE4_TITLE, SAMPLE4_STATEMENT, SAMPLE4_ANSWER, SAMPLE4_EXPLANATION, "標準"@, seq!["判別式"@, "解の個数"@]),
        sample_problem_is(r.problems@[4], 2, SAMPLE5_TITLE, SAMPLE5_STATEMENT, SAMPLE5_ANSWER, SAMPLE5_EXPLANATION, "発展"@, seq!["判別式"@, "不等式"@, "絶対不等式"@]),
        sample_problem_is(r.problems@[5], 4, SAMPLE6_TITLE, SAMPLE6_STATEMENT, SAMPLE6_ANSWER, SAMPLE6_EXPLANATION, "基礎"@, seq!["順列"@, "場合の数"@]),
{
    let subjects = vec![text("数学")];
    let fields = vec![(0usize, text("数I"), 1i64), (0usize, text("数A"), 2i64)];
    let units = vec![(0usize, text("二次関数"), 1i64), (0usize, text("最大・最小"), 2i64), (0usize, text("判別式"), 3i64), (0usize, text("図形と計量"), 4i64), (1usize, text("場合の数"), 1i64)];
    let mut problems: Vec<SampleProblem> = Vec::new();
    problems.push(SampleProblem { unit: 0, title: text(SAMPLE1_TITLE), statement: text(SAMPLE1_STATEMENT), answer: text(SAMPLE1_ANSWER), explanation: text(SAMPLE1_EXPLANATION), difficulty: text("基礎"), tags: two_texts("平方完成", "頂点") });
    problems.push(SampleProblem { unit: 0, title: text(SAMPLE2_TITLE), statement: text(SAMPLE2_STATEMENT), answer: text(SAMPLE2_ANSWER), explanation: text(SAMPLE2_EXPLANATION), difficulty: text("標準"), tags: two_texts("二次関数の決定", "連立方程式") });
    problems.push(SampleProblem { unit: 1, title: text(SAMPLE3_TITLE), statement: text(SAMPLE3_STATEMENT), answer: text(SAMPLE3_ANSWER), explanation: text(SAMPLE3_EXPLANATION), difficulty: text("標準"), tags: two_texts("最大・最小", "定義域") });
    problems.push(SampleProblem { unit: 2, title: text(SAMPLE4_TITLE), statement: text(SAMPLE4_STATEMENT), answer: text(SAMPLE4_ANSWER), explanation: text(SAMPLE4_EXPLANATION), difficulty: text("標準"), tags: two_texts("判別式", "解の個数") });
    problems.push(SampleProblem { unit: 2, title: text(SAMPLE5_TITLE), statement: text(SAMPLE5_STATEMENT), answer: text(SAMPLE5_ANSWER), explanation: text(SAMPLE5_EXPLANATION), difficulty: text("発展"), tags: texts("判別式", "不等式", "絶対不等式") });
    problems.push(SampleProblem { unit: 4, title: text(SAMPLE6_TITLE), statement: text(SAMPLE6_STATEMENT), answer: text(SAMPLE6_ANSWER), explanation: text(SAMPLE6_EXPLANATION), difficulty: text("基礎"), tags: two_texts("順列", "場合の数") });
    SampleBank { subjects, fields, units, problems }
}

/// Law: once the sample is stored, the bank holds data, whatever it held
/// before: however many subjects there were, with the sample's added there
/// is at least one, which is what `has_any_data` asks.
pub proof fn lemma_sample_bank_is_data(subjects_before: int)
    requires
        subjects_before >= 0,
    ensures
        subjects_before + sample_subject_count() > 0,
{
}

} // verus!
