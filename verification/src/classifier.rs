//! The heuristic text classifier: language detection, purpose, scope and
//! difficulty suggestions, keyword tagging, and a word-for-word translator,
//! all driven by fixed keyword tables.

use vstd::prelude::*;
use crate::text::{lower_of, contains_seq, char_alphabetic};
use crate::embed::tokens;

verus! {

broadcast use vstd::std_specs::vec::group_vec_axioms, vstd::seq::group_seq_axioms;

/// The keyword-table classifier. The tables are fixed at construction.
#[derive(Debug)]
pub struct AutoClassifier {
    pub categories: Vec<(String, Vec<String>)>,
    pub purposes: Vec<String>,
    pub scopes: Vec<String>,
    pub difficulty_levels: Vec<String>,
}

/// A text and its translation, with the languages involved.
#[derive(Debug)]
pub struct TranslatedResult {
    pub original_text: String,
    pub translated_text: String,
    pub detected_language: String,
    pub target_language: String,
}

/// The category keyword table.
pub open spec fn categories_data() -> Seq<(Seq<char>, Seq<Seq<char>>)> {
    seq![("lap_trinh"@, seq!["code"@, "programming"@, "algorithm"@, "function"@, "class"@, "variable"@, "debug"@, "test"@, "development"@, "software"@, "application"@, "framework"@]), ("co_so_du_lieu"@, seq!["database"@, "sql"@, "query"@, "table"@, "index"@, "schema"@, "nosql"@, "mongodb"@, "mysql"@, "postgresql"@, "data"@, "storage"@]), ("web_development"@, seq!["html"@, "css"@, "javascript"@, "react"@, "vue"@, "angular"@, "frontend"@, "backend"@, "api"@, "rest"@, "http"@, "server"@]), ("devops"@, seq!["docker"@, "kubernetes"@, "ci/cd"@, "deployment"@, "infrastructure"@, "cloud"@, "aws"@, "azure"@, "monitoring"@, "automation"@, "pipeline"@, "container"@]), ("bao_mat"@, seq!["security"@, "encryption"@, "authentication"@, "authorization"@, "vulnerability"@, "ssl"@, "tls"@, "firewall"@, "penetration"@, "audit"@, "compliance"@, "privacy"@]), ("ai_ml"@, seq!["machine learning"@, "artificial intelligence"@, "neural network"@, "deep learning"@, "model"@, "training"@, "prediction"@, "algorithm"@, "data science"@, "tensorflow"@, "pytorch"@, "nlp"@]), ("tong_quat"@, seq!["general"@, "tutorial"@, "guide"@, "documentation"@, "reference"@, "example"@, "how-to"@, "tips"@, "best practices"@, "introduction"@, "overview"@, "basics"@])]
}

/// The purpose labels.
pub open spec fn purposes_data() -> Seq<Seq<char>> {
    seq!["tai_lieu_hoc"@, "tham_khao"@, "tieu_chuan"@, "phuong_phap"@, "best_practices"@, "xu_ly_su_co"@]
}

/// The scope labels.
pub open spec fn scopes_data() -> Seq<Seq<char>> {
    seq!["frontend"@, "backend"@, "fullstack"@, "mobile"@, "devops"@, "tong_quat"@]
}

/// The difficulty labels.
pub open spec fn difficulty_data() -> Seq<Seq<char>> {
    seq!["co_ban"@, "trung_binh"@, "nang_cao"@, "chuyen_gia"@]
}

/// The English-to-Vietnamese word table.
pub open spec fn en_vi_data() -> Seq<(Seq<char>, Seq<char>)> {
    seq![("programming"@, "lập trình"@), ("database"@, "cơ sở dữ liệu"@), ("security"@, "bảo mật"@), ("development"@, "phát triển"@), ("algorithm"@, "thuật toán"@), ("function"@, "hàm số"@), ("variable"@, "biến"@), ("class"@, "lớp"@), ("method"@, "phương thức"@), ("server"@, "máy chủ"@), ("client"@, "máy khách"@), ("network"@, "mạng"@), ("internet"@, "internet"@), ("website"@, "trang web"@), ("application"@, "ứng dụng"@), ("software"@, "phần mềm"@), ("hardware"@, "phần cứng"@), ("system"@, "hệ thống"@), ("data"@, "dữ liệu"@), ("information"@, "thông tin"@)]
}

/// The Vietnamese-to-English word table.
pub open spec fn vi_en_data() -> Seq<(Seq<char>, Seq<char>)> {
    seq![("lập trình"@, "programming"@), ("cơ sở dữ liệu"@, "database"@), ("bảo mật"@, "security"@), ("phát triển"@, "development"@), ("thuật toán"@, "algorithm"@), ("hàm số"@, "function"@), ("biến"@, "variable"@), ("lớp"@, "class"@), ("phương thức"@, "method"@), ("máy chủ"@, "server"@), ("máy khách"@, "client"@), ("mạng"@, "network"@), ("trang web"@, "website"@), ("ứng dụng"@, "application"@), ("phần mềm"@, "software"@), ("phần cứng"@, "hardware"@), ("hệ thống"@, "system"@), ("dữ liệu"@, "data"@), ("thông tin"@, "information"@)]
}

/// Appends a string literal to a list.
fn push_str(v: &mut Vec<String>, s: &str)
    ensures
        final(v).deep_view() == old(v).deep_view().push(s@),
{
    let ghost pre = v.deep_view();
    v.push(s.to_owned());
    proof {
        assert forall|k: int| 0 <= k < v.deep_view().len() implies v.deep_view()[k] == pre.push(
            s@,
        )[k] by {
            assert(v.deep_view()[k] == v@[k]@);
        }
        assert(v.deep_view() =~= pre.push(s@));
    }
}

/// Appends a copy of a string to a list.
fn push_str_string(v: &mut Vec<String>, s: &String)
    ensures
        final(v).deep_view() == old(v).deep_view().push(s@),
{
    let ghost pre = v.deep_view();
    let c = crate::json::clone_string(s);
    v.push(c);
    proof {
        assert forall|k: int| 0 <= k < v.deep_view().len() implies v.deep_view()[k] == pre.push(
            s@,
        )[k] by {
            assert(v.deep_view()[k] == v@[k]@);
        }
        assert(v.deep_view() =~= pre.push(s@));
    }
}

/// Appends a word pair to a table.
fn push_pair(v: &mut Vec<(String, String)>, a: &str, b: &str)
    ensures
        final(v).deep_view() == old(v).deep_view().push((a@, b@)),
{
    let ghost pre = v.deep_view();
    v.push((a.to_owned(), b.to_owned()));
    proof {
        assert forall|k: int| 0 <= k < v.deep_view().len() implies v.deep_view()[k] == pre.push(
            (a@, b@),
        )[k] by {
            assert(v.deep_view()[k] == (v@[k].0@, v@[k].1@));
        }
        assert(v.deep_view() =~= pre.push((a@, b@)));
    }
}

/// Appends a named keyword list to a category table.
fn push_cat(v: &mut Vec<(String, Vec<String>)>, name: &str, kws: Vec<String>)
    ensures
        final(v).deep_view() == old(v).deep_view().push((name@, kws.deep_view())),
{
    let ghost pre = v.deep_view();
    let ghost kd = kws.deep_view();
    v.push((name.to_owned(), kws));
    proof {
        assert forall|k: int| 0 <= k < v.deep_view().len() implies v.deep_view()[k] == pre.push(
            (name@, kd),
        )[k] by {
            assert(v.deep_view()[k] == (v@[k].0@, v@[k].1.deep_view()));
        }
        assert(v.deep_view() =~= pre.push((name@, kd)));
    }
}

impl AutoClassifier {
    /// Builds the classifier with its fixed keyword tables.
    pub fn new() -> (r: Self)
        ensures
            r.categories.deep_view() == categories_data(),
            r.purposes.deep_view() == purposes_data(),
            r.scopes.deep_view() == scopes_data(),
            r.difficulty_levels.deep_view() == difficulty_data(),
    {
        let mut categories: Vec<(String, Vec<String>)> = Vec::new();
        let mut kws0: Vec<String> = Vec::new();
        push_str(&mut kws0, "code");
        push_str(&mut kws0, "programming");
        push_str(&mut kws0, "algorithm");
        push_str(&mut kws0, "function");
        push_str(&mut kws0, "class");
        push_str(&mut kws0, "variable");
        push_str(&mut kws0, "debug");
        push_str(&mut kws0, "test");
        push_str(&mut kws0, "development");
        push_str(&mut kws0, "software");
        push_str(&mut kws0, "application");
        push_str(&mut kws0, "framework");
        proof { assert(kws0.deep_view() =~= categories_data()[0].1); }
        push_cat(&mut categories, "lap_trinh", kws0);
        let mut kws1: Vec<String> = Vec::new();
        push_str(&mut kws1, "database");
        push_str(&mut kws1, "sql");
        push_str(&mut kws1, "query");
        push_str(&mut kws1, "table");
        push_str(&mut kws1, "index");
        push_str(&mut kws1, "schema");
        push_str(&mut kws1, "nosql");
        push_str(&mut kws1, "mongodb");
        push_str(&mut kws1, "mysql");
        push_str(&mut kws1, "postgresql");
        push_str(&mut kws1, "data");
        push_str(&mut kws1, "storage");
        proof { assert(kws1.deep_view() =~= categories_data()[1].1); }
        push_cat(&mut categories, "co_so_du_lieu", kws1);
        let mut kws2: Vec<String> = Vec::new();
        push_str(&mut kws2, "html");
        push_str(&mut kws2, "css");
        push_str(&mut kws2, "javascript");
        push_str(&mut kws2, "react");
        push_str(&mut kws2, "vue");
        push_str(&mut kws2, "angular");
        push_str(&mut kws2, "frontend");
        push_str(&mut kws2, "backend");
        push_str(&mut kws2, "api");
        push_str(&mut kws2, "rest");
        push_str(&mut kws2, "http");
        push_str(&mut kws2, "server");
        proof { assert(kws2.deep_view() =~= categories_data()[2].1); }
        push_cat(&mut categories, "web_development", kws2);
        let mut kws3: Vec<String> = Vec::new();
        push_str(&mut kws3, "docker");
        push_str(&mut kws3, "kubernetes");
        push_str(&mut kws3, "ci/cd");
        push_str(&mut kws3, "deployment");
        push_str(&mut kws3, "infrastructure");
        push_str(&mut kws3, "cloud");
        push_str(&mut kws3, "aws");
        push_str(&mut kws3, "azure");
        push_str(&mut kws3, "monitoring");
        push_str(&mut kws3, "automation");
        push_str(&mut kws3, "pipeline");
        push_str(&mut kws3, "container");
        proof { assert(kws3.deep_view() =~= categories_data()[3].1); }
        push_cat(&mut categories, "devops", kws3);
        let mut kws4: Vec<String> = Vec::new();
        push_str(&mut kws4, "security");
        push_str(&mut kws4, "encryption");
        push_str(&mut kws4, "authentication");
        push_str(&mut kws4, "authorization");
        push_str(&mut kws4, "vulnerability");
        push_str(&mut kws4, "ssl");
        push_str(&mut kws4, "tls");
        push_str(&mut kws4, "firewall");
        push_str(&mut kws4, "penetration");
        push_str(&mut kws4, "audit");
        push_str(&mut kws4, "compliance");
        push_str(&mut kws4, "privacy");
        proof { assert(kws4.deep_view() =~= categories_data()[4].1); }
        push_cat(&mut categories, "bao_mat", kws4);
        let mut kws5: Vec<String> = Vec::new();
        push_str(&mut kws5, "machine learning");
        push_str(&mut kws5, "artificial intelligence");
        push_str(&mut kws5, "neural network");
        push_str(&mut kws5, "deep learning");
        push_str(&mut kws5, "model");
        push_str(&mut kws5, "training");
        push_str(&mut kws5, "prediction");
        push_str(&mut kws5, "algorithm");
        push_str(&mut kws5, "data science");
        push_str(&mut kws5, "tensorflow");
        push_str(&mut kws5, "pytorch");
        push_str(&mut kws5, "nlp");
        proof { assert(kws5.deep_view() =~= categories_data()[5].1); }
        push_cat(&mut categories, "ai_ml", kws5);
        let mut kws6: Vec<String> = Vec::new();
        push_str(&mut kws6, "general");
        push_str(&mut kws6, "tutorial");
        push_str(&mut kws6, "guide");
        push_str(&mut kws6, "documentation");
        push_str(&mut kws6, "reference");
        push_str(&mut kws6, "example");
        push_str(&mut kws6, "how-to");
        push_str(&mut kws6, "tips");
        push_str(&mut kws6, "best practices");
        push_str(&mut kws6, "introduction");
        push_str(&mut kws6, "overview");
        push_str(&mut kws6, "basics");
        proof { assert(kws6.deep_view() =~= categories_data()[6].1); }
        push_cat(&mut categories, "tong_quat", kws6);
        proof { assert(categories.deep_view() =~= categories_data()); }
        let mut purposes: Vec<String> = Vec::new();
        push_str(&mut purposes, "tai_lieu_hoc");
        push_str(&mut purposes, "tham_khao");
        push_str(&mut purposes, "tieu_chuan");
        push_str(&mut purposes, "phuong_phap");
        push_str(&mut purposes, "best_practices");
        push_str(&mut purposes, "xu_ly_su_co");
        proof { assert(purposes.deep_view() =~= purposes_data()); }
        let mut scopes: Vec<String> = Vec::new();
        push_str(&mut scopes, "frontend");
        push_str(&mut scopes, "backend");
        push_str(&mut scopes, "fullstack");
        push_str(&mut scopes, "mobile");
        push_str(&mut scopes, "devops");
        push_str(&mut scopes, "tong_quat");
        proof { assert(scopes.deep_view() =~= scopes_data()); }
        let mut difficulty_levels: Vec<String> = Vec::new();
        push_str(&mut difficulty_levels, "co_ban");
        push_str(&mut difficulty_levels, "trung_binh");
        push_str(&mut difficulty_levels, "nang_cao");
        push_str(&mut difficulty_levels, "chuyen_gia");
        proof { assert(difficulty_levels.deep_view() =~= difficulty_data()); }
        AutoClassifier { categories, purposes, scopes, difficulty_levels }
    }
}
impl AutoClassifier {
    /// The fixed word table behind the translator.
    pub fn get_en_to_vi_translations(&self) -> (r: Vec<(String, String)>)
        ensures
            r.deep_view() == en_vi_data(),
    {
        let mut r: Vec<(String, String)> = Vec::new();
        push_pair(&mut r, "programming", "lập trình");
        push_pair(&mut r, "database", "cơ sở dữ liệu");
        push_pair(&mut r, "security", "bảo mật");
        push_pair(&mut r, "development", "phát triển");
        push_pair(&mut r, "algorithm", "thuật toán");
        push_pair(&mut r, "function", "hàm số");
        push_pair(&mut r, "variable", "biến");
        push_pair(&mut r, "class", "lớp");
        push_pair(&mut r, "method", "phương thức");
        push_pair(&mut r, "server", "máy chủ");
        push_pair(&mut r, "client", "máy khách");
        push_pair(&mut r, "network", "mạng");
        push_pair(&mut r, "internet", "internet");
        push_pair(&mut r, "website", "trang web");
        push_pair(&mut r, "application", "ứng dụng");
        push_pair(&mut r, "software", "phần mềm");
        push_pair(&mut r, "hardware", "phần cứng");
        push_pair(&mut r, "system", "hệ thống");
        push_pair(&mut r, "data", "dữ liệu");
        push_pair(&mut r, "information", "thông tin");
        proof { assert(r.deep_view() =~= en_vi_data()); }
        r
    }
}
impl AutoClassifier {
    /// The fixed word table behind the translator.
    pub fn get_vi_to_en_translations(&self) -> (r: Vec<(String, String)>)
        ensures
            r.deep_view() == vi_en_data(),
    {
        let mut r: Vec<(String, String)> = Vec::new();
        push_pair(&mut r, "lập trình", "programming");
        push_pair(&mut r, "cơ sở dữ liệu", "database");
        push_pair(&mut r, "bảo mật", "security");
        push_pair(&mut r, "phát triển", "development");
        push_pair(&mut r, "thuật toán", "algorithm");
        push_pair(&mut r, "hàm số", "function");
        push_pair(&mut r, "biến", "variable");
        push_pair(&mut r, "lớp", "class");
        push_pair(&mut r, "phương thức", "method");
        push_pair(&mut r, "máy chủ", "server");
        push_pair(&mut r, "máy khách", "client");
        push_pair(&mut r, "mạng", "network");
        push_pair(&mut r, "trang web", "website");
        push_pair(&mut r, "ứng dụng", "application");
        push_pair(&mut r, "phần mềm", "software");
        push_pair(&mut r, "phần cứng", "hardware");
        push_pair(&mut r, "hệ thống", "system");
        push_pair(&mut r, "dữ liệu", "data");
        push_pair(&mut r, "thông tin", "information");
        proof { assert(r.deep_view() =~= vi_en_data()); }
        r
    }
}


/// What the purpose heuristic answers for lowercased text.
pub open spec fn suggest_purpose_v(lc: Seq<char>) -> Seq<char> {
    if contains_seq(lc, "standard"@) || contains_seq(lc, "rule"@) {
        "tieu_chuan"@
    } else if contains_seq(lc, "method"@) || contains_seq(lc, "approach"@) {
        "phuong_phap"@
    } else if contains_seq(lc, "best practice"@) || contains_seq(lc, "recommendation"@) {
        "best_practices"@
    } else if contains_seq(lc, "troubleshoot"@) || contains_seq(lc, "fix"@) {
        "xu_ly_su_co"@
    } else if contains_seq(lc, "reference"@) || contains_seq(lc, "cheat"@) {
        "tham_khao"@
    } else if contains_seq(lc, "tutorial"@) || contains_seq(lc, "guide"@) {
        "tai_lieu_hoc"@
    } else {
        "tong_quat"@
    }
}

/// What the scope heuristic answers for lowercased text.
pub open spec fn suggest_scope_v(lc: Seq<char>) -> Seq<char> {
    if contains_seq(lc, "python"@) {
        "ngon_ngu_python"@
    } else if contains_seq(lc, "javascript"@) {
        "ngon_ngu_javascript"@
    } else if contains_seq(lc, "java"@) {
        "ngon_ngu_java"@
    } else if contains_seq(lc, "rust"@) {
        "ngon_ngu_rust"@
    } else if contains_seq(lc, "go"@) {
        "ngon_ngu_go"@
    } else if contains_seq(lc, "c++"@) {
        "ngon_ngu_c++"@
    } else if contains_seq(lc, "react"@) {
        "framework_react"@
    } else if contains_seq(lc, "django"@) {
        "framework_django"@
    } else if contains_seq(lc, "flask"@) {
        "framework_flask"@
    } else if contains_seq(lc, "vue"@) {
        "framework_vue"@
    } else if contains_seq(lc, "angular"@) {
        "framework_angular"@
    } else if contains_seq(lc, "frontend"@) {
        "frontend"@
    } else if contains_seq(lc, "backend"@) {
        "backend"@
    } else if contains_seq(lc, "devops"@) {
        "devops"@
    } else if contains_seq(lc, "mobile"@) {
        "mobile"@
    } else if contains_seq(lc, "developer"@) {
        "vai_tro_developer"@
    } else if contains_seq(lc, "architect"@) {
        "vai_tro_architect"@
    } else if contains_seq(lc, "manager"@) {
        "vai_tro_manager"@
    } else if contains_seq(lc, "qa"@) {
        "vai_tro_qa"@
    } else {
        "tong_quat"@
    }
}

/// What the difficulty heuristic answers for lowercased text.
pub open spec fn suggest_difficulty_v(lc: Seq<char>) -> Seq<char> {
    if contains_seq(lc, "advanced"@) || contains_seq(lc, "expert"@) || contains_seq(
        lc,
        "complex"@,
    ) || contains_seq(lc, "enterprise"@) || contains_seq(lc, "scalable"@) {
        "nang_cao"@
    } else if contains_seq(lc, "basic"@) || contains_seq(lc, "beginner"@) || contains_seq(
        lc,
        "introduction"@,
    ) || contains_seq(lc, "getting started"@) {
        "co_ban"@
    } else {
        "trung_binh"@
    }
}

/// The Vietnamese diacritic characters the language detector looks for.
pub open spec fn is_viet_char(c: char) -> bool {
    "àáạảãâầấậẩẫăằắặẳẵèéẹẻẽêềếệểễìíịỉĩòóọỏõôồốộổỗơờớợởỡùúụủũưừứựửữỳýỵỷỹđĐ"@.contains(c)
}

/// How many characters of `s` carry Vietnamese diacritics.
pub open spec fn viet_count(s: Seq<char>) -> int
    decreases s.len(),
{
    if s.len() == 0 {
        0
    } else {
        (if is_viet_char(s[0]) {
            1int
        } else {
            0int
        }) + viet_count(s.skip(1))
    }
}

/// How many characters of `s` are alphabetic.
pub open spec fn alpha_count(s: Seq<char>) -> int
    decreases s.len(),
{
    if s.len() == 0 {
        0
    } else {
        (if char_alphabetic(s[0]) {
            1int
        } else {
            0int
        }) + alpha_count(s.skip(1))
    }
}

/// What the language detector answers: Vietnamese when more than a tenth of
/// the alphabetic characters carry diacritics.
pub open spec fn detect_language_v(s: Seq<char>) -> Seq<char> {
    if 10 * viet_count(s) > alpha_count(s) {
        "vietnamese"@
    } else {
        "english"@
    }
}

/// Whether `c` occurs among the characters of `h`.
fn char_in(h: &Vec<char>, c: char) -> (r: bool)
    ensures
        r == h@.contains(c),
{
    let n = h.len();
    let mut i: usize = 0;
    while i < n
        invariant
            i <= n,
            n == h.len(),
            forall|j: int| 0 <= j < i ==> h@[j] != c,
        decreases n - i,
    {
        if h[i] == c {
            return true;
        }
        i = i + 1;
    }
    proof {
        assert(forall|j: int| 0 <= j < h@.len() ==> h@[j] != c);
    }
    false
}

/// Whether the lowercased text contains the literal.
fn has(h: &Vec<char>, n: &str) -> (r: bool)
    ensures
        r == contains_seq(h@, n@),
{
    let needle = crate::text::chars_vec(n);
    crate::text::contains_chars(h, &needle)
}

impl AutoClassifier {
    /// Suggests the purpose label for a text by its keywords.
    pub fn suggest_purpose(&self, content: &str) -> (r: String)
        ensures
            r@ == suggest_purpose_v(lower_of(content@)),
    {
        let lc = crate::text::to_lowercase(content);
        let h = crate::text::chars_vec(lc.as_str());
        if has(&h, "standard") || has(&h, "rule") {
            String::from_str("tieu_chuan")
        } else if has(&h, "method") || has(&h, "approach") {
            String::from_str("phuong_phap")
        } else if has(&h, "best practice") || has(&h, "recommendation") {
            String::from_str("best_practices")
        } else if has(&h, "troubleshoot") || has(&h, "fix") {
            String::from_str("xu_ly_su_co")
        } else if has(&h, "reference") || has(&h, "cheat") {
            String::from_str("tham_khao")
        } else if has(&h, "tutorial") || has(&h, "guide") {
            String::from_str("tai_lieu_hoc")
        } else {
            String::from_str("tong_quat")
        }
    }

    /// Suggests the scope label: a language, a framework, a domain or a
    /// role, in that order.
    pub fn suggest_scope(&self, content: &str) -> (r: String)
        ensures
            r@ == suggest_scope_v(lower_of(content@)),
    {
        let lc = crate::text::to_lowercase(content);
        let h = crate::text::chars_vec(lc.as_str());
        if has(&h, "python") {
            String::from_str("ngon_ngu_python")
        } else if has(&h, "javascript") {
            String::from_str("ngon_ngu_javascript")
        } else if has(&h, "java") {
            String::from_str("ngon_ngu_java")
        } else if has(&h, "rust") {
            String::from_str("ngon_ngu_rust")
        } else if has(&h, "go") {
            String::from_str("ngon_ngu_go")
        } else if has(&h, "c++") {
            String::from_str("ngon_ngu_c++")
        } else if has(&h, "react") {
            String::from_str("framework_react")
        } else if has(&h, "django") {
            String::from_str("framework_django")
        } else if has(&h, "flask") {
            String::from_str("framework_flask")
        } else if has(&h, "vue") {
            String::from_str("framework_vue")
        } else if has(&h, "angular") {
            String::from_str("framework_angular")
        } else if has(&h, "frontend") {
            String::from_str("frontend")
        } else if has(&h, "backend") {
            String::from_str("backend")
        } else if has(&h, "devops") {
            String::from_str("devops")
        } else if has(&h, "mobile") {
            String::from_str("mobile")
        } else if has(&h, "developer") {
            String::from_str("vai_tro_developer")
        } else if has(&h, "architect") {
            String::from_str("vai_tro_architect")
        } else if has(&h, "manager") {
            String::from_str("vai_tro_manager")
        } else if has(&h, "qa") {
            String::from_str("vai_tro_qa")
        } else {
            String::from_str("tong_quat")
        }
    }

    /// Suggests the difficulty label by keyword.
    pub fn suggest_difficulty(&self, content: &str) -> (r: String)
        ensures
            r@ == suggest_difficulty_v(lower_of(content@)),
    {
        let lc = crate::text::to_lowercase(content);
        let h = crate::text::chars_vec(lc.as_str());
        if has(&h, "advanced") || has(&h, "expert") || has(&h, "complex") || has(
            &h,
            "enterprise",
        ) || has(&h, "scalable") {
            String::from_str("nang_cao")
        } else if has(&h, "basic") || has(&h, "beginner") || has(&h, "introduction") || has(
            &h,
            "getting started",
        ) {
            String::from_str("co_ban")
        } else {
            String::from_str("trung_binh")
        }
    }

    /// Detects the text's language by the share of Vietnamese diacritics
    /// among its alphabetic characters.
    pub fn detect_language(&self, content: &str) -> (r: String)
        ensures
            r@ == detect_language_v(content@),
    {
        let cs = crate::text::chars_vec(content);
        let viet_set = crate::text::chars_vec("àáạảãâầấậẩẫăằắặẳẵèéẹẻẽêềếệểễìíịỉĩòóọỏõôồốộổỗơờớợởỡùúụủũưừứựửữỳýỵỷỹđĐ");
        let n = cs.len();
        let mut vc: usize = 0;
        let mut ac: usize = 0;
        let mut i: usize = 0;
        proof {
            assert(cs@.skip(0) =~= cs@);
        }
        while i < n
            invariant
                i <= n,
                n == cs.len(),
                cs@ == content@,
                viet_set@ == "àáạảãâầấậẩẫăằắặẳẵèéẹẻẽêềếệểễìíịỉĩòóọỏõôồốộổỗơờớợởỡùúụủũưừứựửữỳýỵỷỹđĐ"@,
                vc <= i,
                ac <= i,
                viet_count(content@) == vc + viet_count(content@.skip(i as int)),
                alpha_count(content@) == ac + alpha_count(content@.skip(i as int)),
            decreases n - i,
        {
            let c = cs[i];
            proof {
                assert(content@.skip(i as int)[0] == content@[i as int]);
                assert(content@.skip(i as int).skip(1) =~= content@.skip(i as int + 1));
            }
            if char_in(&viet_set, c) {
                vc = vc + 1;
            }
            if c.is_alphabetic() {
                ac = ac + 1;
            }
            i = i + 1;
        }
        proof {
            assert(content@.skip(n as int) =~= Seq::<char>::empty());
        }
        if vc as u128 * 10 > ac as u128 {
            String::from_str("vietnamese")
        } else {
            String::from_str("english")
        }
    }
}



/// What the dynamic-collection heuristic suggests for lowercased text.
pub open spec fn dynamic_collections_v(lc: Seq<char>) -> Seq<Seq<char>> {
    (if contains_seq(lc, "tutorial"@) || contains_seq(lc, "guide"@) {
        seq!["tutorials_and_guides"@]
    } else {
        Seq::<Seq<char>>::empty()
    }) + (if contains_seq(lc, "error"@) || contains_seq(lc, "bug"@) {
        seq!["troubleshooting"@]
    } else {
        Seq::<Seq<char>>::empty()
    }) + (if contains_seq(lc, "best practice"@) || contains_seq(lc, "pattern"@) {
        seq!["best_practices"@]
    } else {
        Seq::<Seq<char>>::empty()
    }) + (if contains_seq(lc, "api"@) || contains_seq(lc, "documentation"@) {
        seq!["api_documentation"@]
    } else {
        Seq::<Seq<char>>::empty()
    }) + (if contains_seq(lc, "performance"@) || contains_seq(lc, "optimization"@) {
        seq!["performance_optimization"@]
    } else {
        Seq::<Seq<char>>::empty()
    })
}

/// The technology keywords and the tags they produce, in scan order.
pub open spec fn techs_data() -> Seq<(Seq<char>, Seq<char>)> {
    seq![("react"@, "tech:react"@), ("vue"@, "tech:vue"@), ("angular"@, "tech:angular"@), ("nodejs"@, "tech:nodejs"@), ("python"@, "tech:python"@), ("java"@, "tech:java"@), ("rust"@, "tech:rust"@), ("go"@, "tech:go"@), ("docker"@, "tech:docker"@), ("kubernetes"@, "tech:kubernetes"@), ("aws"@, "tech:aws"@), ("azure"@, "tech:azure"@), ("mongodb"@, "tech:mongodb"@), ("postgresql"@, "tech:postgresql"@), ("redis"@, "tech:redis"@)]
}

/// The technology tags from table position `i` on.
pub open spec fn tech_scan(lc: Seq<char>, i: int) -> Seq<Seq<char>>
    decreases techs_data().len() - i,
{
    if i < 0 || i >= techs_data().len() {
        Seq::empty()
    } else {
        (if contains_seq(lc, techs_data()[i].0) {
            seq![techs_data()[i].1]
        } else {
            Seq::<Seq<char>>::empty()
        }) + tech_scan(lc, i + 1)
    }
}

/// The technology tags of lowercased text, in the fixed scan order.
pub open spec fn tech_tags_v(lc: Seq<char>) -> Seq<Seq<char>> {
    tech_scan(lc, 0)
}

/// The level tag of lowercased text.
pub open spec fn level_tag_v(lc: Seq<char>) -> Seq<char> {
    if contains_seq(lc, "beginner"@) || contains_seq(lc, "basic"@) {
        "level:beginner"@
    } else if contains_seq(lc, "advanced"@) || contains_seq(lc, "expert"@) {
        "level:advanced"@
    } else {
        "level:intermediate"@
    }
}

/// The content-type tag of lowercased text, if any.
pub open spec fn type_tags_v(lc: Seq<char>) -> Seq<Seq<char>> {
    if contains_seq(lc, "tutorial"@) {
        seq!["type:tutorial"@]
    } else if contains_seq(lc, "reference"@) {
        seq!["type:reference"@]
    } else if contains_seq(lc, "example"@) {
        seq!["type:example"@]
    } else {
        Seq::<Seq<char>>::empty()
    }
}

/// All smart tags of lowercased text: technologies, then the level, then
/// the content type.
pub open spec fn smart_tags_v(lc: Seq<char>) -> Seq<Seq<char>> {
    tech_tags_v(lc) + seq![level_tag_v(lc)] + type_tags_v(lc)
}

impl AutoClassifier {
    /// Suggests extra collections a text could file under, by content
    /// patterns.
    pub fn suggest_dynamic_collections(&self, content: &str) -> (r: Vec<String>)
        ensures
            r.deep_view() == dynamic_collections_v(lower_of(content@)),
    {
        let lc = crate::text::to_lowercase(content);
        let h = crate::text::chars_vec(lc.as_str());
        let mut out: Vec<String> = Vec::new();
        if has(&h, "tutorial") || has(&h, "guide") {
            push_str(&mut out, "tutorials_and_guides");
        }
        if has(&h, "error") || has(&h, "bug") {
            push_str(&mut out, "troubleshooting");
        }
        if has(&h, "best practice") || has(&h, "pattern") {
            push_str(&mut out, "best_practices");
        }
        if has(&h, "api") || has(&h, "documentation") {
            push_str(&mut out, "api_documentation");
        }
        if has(&h, "performance") || has(&h, "optimization") {
            push_str(&mut out, "performance_optimization");
        }
        proof {
            assert(out.deep_view() =~= dynamic_collections_v(lower_of(content@)));
        }
        out
    }

    /// Tags a text with the technologies it names, a level and a content
    /// type.
    pub fn generate_smart_tags(&self, content: &str) -> (r: Vec<String>)
        ensures
            r.deep_view() == smart_tags_v(lower_of(content@)),
    {
        let ghost lcv = lower_of(content@);
        let lc = crate::text::to_lowercase(content);
        let h = crate::text::chars_vec(lc.as_str());
        let mut table: Vec<(String, String)> = Vec::new();
        push_pair(&mut table, "react", "tech:react");
        push_pair(&mut table, "vue", "tech:vue");
        push_pair(&mut table, "angular", "tech:angular");
        push_pair(&mut table, "nodejs", "tech:nodejs");
        push_pair(&mut table, "python", "tech:python");
        push_pair(&mut table, "java", "tech:java");
        push_pair(&mut table, "rust", "tech:rust");
        push_pair(&mut table, "go", "tech:go");
        push_pair(&mut table, "docker", "tech:docker");
        push_pair(&mut table, "kubernetes", "tech:kubernetes");
        push_pair(&mut table, "aws", "tech:aws");
        push_pair(&mut table, "azure", "tech:azure");
        push_pair(&mut table, "mongodb", "tech:mongodb");
        push_pair(&mut table, "postgresql", "tech:postgresql");
        push_pair(&mut table, "redis", "tech:redis");
        proof {
            assert(table.deep_view() =~= techs_data());
        }
        let mut out: Vec<String> = Vec::new();
        let n = table.len();
        let mut i: usize = 0;
        proof {
            assert(Seq::<Seq<char>>::empty() + tech_scan(lcv, 0) =~= tech_scan(lcv, 0));
        }
        while i < n
            invariant
                i <= n,
                n == table.len(),
                h@ == lcv,
                table.deep_view() == techs_data(),
                n == techs_data().len(),
                tech_scan(lcv, 0) == out.deep_view() + tech_scan(lcv, i as int),
            decreases n - i,
        {
            proof {
                assert(techs_data()[i as int] == (table@[i as int].0@, table@[i as int].1@));
            }
            if has(&h, table[i].0.as_str()) {
                let ghost pre = out.deep_view();
                push_str_string(&mut out, &table[i].1);
                proof {
                    assert(pre + (seq![techs_data()[i as int].1] + tech_scan(lcv, i as int + 1))
                        =~= out.deep_view() + tech_scan(lcv, i as int + 1));
                }
            }
            i = i + 1;
        }
        proof {
            assert(tech_scan(lcv, n as int) =~= Seq::<Seq<char>>::empty());
            assert(out.deep_view() =~= tech_scan(lcv, 0));
        }
        let ghost tags1 = out.deep_view();
        if has(&h, "beginner") || has(&h, "basic") {
            push_str(&mut out, "level:beginner");
        } else if has(&h, "advanced") || has(&h, "expert") {
            push_str(&mut out, "level:advanced");
        } else {
            push_str(&mut out, "level:intermediate");
        }
        proof {
            assert(out.deep_view() =~= tags1 + seq![level_tag_v(lcv)]);
        }
        let ghost tags2 = out.deep_view();
        if has(&h, "tutorial") {
            push_str(&mut out, "type:tutorial");
        } else if has(&h, "reference") {
            push_str(&mut out, "type:reference");
        } else if has(&h, "example") {
            push_str(&mut out, "type:example");
        }
        proof {
            assert(out.deep_view() =~= tags2 + type_tags_v(lcv));
            assert(out.deep_view() =~= smart_tags_v(lcv));
        }
        out
    }
}

/// The first translation of `lw` in the table, if any.
pub open spec fn lookup_tr(table: Seq<(Seq<char>, Seq<char>)>, lw: Seq<char>) -> Option<
    Seq<char>,
>
    decreases table.len(),
{
    if table.len() == 0 {
        None
    } else if table[0].0 == lw {
        Some(table[0].1)
    } else {
        lookup_tr(table.skip(1), lw)
    }
}

/// What one word becomes: its translation by lowercased form, or itself.
pub open spec fn word_out(table: Seq<(Seq<char>, Seq<char>)>, w: Seq<char>) -> Seq<char> {
    match lookup_tr(table, lower_of(w)) {
        Some(t) => t,
        None => w,
    }
}

/// The first `k` parts joined with single spaces.
pub open spec fn join_pre(parts: Seq<Seq<char>>, k: int) -> Seq<char>
    decreases k,
{
    if k <= 0 {
        Seq::empty()
    } else if k == 1 {
        parts[0]
    } else {
        join_pre(parts, k - 1) + seq![' '] + parts[k - 1]
    }
}

/// A text translated word for word against a table, tokens joined by
/// single spaces.
pub open spec fn translate_words_v(t: Seq<char>, table: Seq<(Seq<char>, Seq<char>)>) -> Seq<
    char,
> {
    join_pre(
        Seq::new(tokens(t).len(), |i: int| word_out(table, tokens(t)[i])),
        tokens(t).len() as int,
    )
}

/// What the word-for-word translator produces: table lookups between the
/// two known languages, the text unchanged otherwise.
pub open spec fn simple_translate_v(t: Seq<char>, from: Seq<char>, to: Seq<char>) -> Seq<char> {
    if from == "vietnamese"@ && to == "english"@ {
        translate_words_v(t, vi_en_data())
    } else if from == "english"@ && to == "vietnamese"@ {
        translate_words_v(t, en_vi_data())
    } else {
        t
    }
}

/// Appends the characters of a string.
fn push_chars_str(out: &mut Vec<char>, s: &str)
    ensures
        final(out)@ == old(out)@ + s@,
{
    let cs = crate::text::chars_vec(s);
    let n = cs.len();
    let mut i: usize = 0;
    while i < n
        invariant
            i <= n,
            n == cs.len(),
            cs@ == s@,
            out@ == old(out)@ + s@.take(i as int),
        decreases n - i,
    {
        out.push(cs[i]);
        i = i + 1;
        proof {
            assert(out@ =~= old(out)@ + s@.take(i as int));
        }
    }
    proof {
        assert(out@ =~= old(out)@ + s@);
    }
}

/// Appends the characters of a vector.
fn push_chars_vec(out: &mut Vec<char>, s: &Vec<char>)
    ensures
        final(out)@ == old(out)@ + s@,
{
    let n = s.len();
    let mut i: usize = 0;
    while i < n
        invariant
            i <= n,
            n == s.len(),
            out@ == old(out)@ + s@.take(i as int),
        decreases n - i,
    {
        out.push(s[i]);
        i = i + 1;
        proof {
            assert(out@ =~= old(out)@ + s@.take(i as int));
        }
    }
    proof {
        assert(out@ =~= old(out)@ + s@);
    }
}

/// Looks a lowercased word up in a table.
fn lookup_word(table: &Vec<(String, String)>, lw: &str) -> (r: Option<String>)
    ensures
        match r {
            Some(t) => lookup_tr(table.deep_view(), lw@) == Some(t@),
            None => lookup_tr(table.deep_view(), lw@) is None,
        },
{
    let ghost td = table.deep_view();
    let n = table.len();
    let mut i: usize = 0;
    proof {
        assert(td.skip(0) =~= td);
    }
    while i < n
        invariant
            i <= n,
            n == table.len(),
            td == table.deep_view(),
            lookup_tr(td, lw@) == lookup_tr(td.skip(i as int), lw@),
        decreases n - i,
    {
        proof {
            assert(td.skip(i as int)[0] == td[i as int]);
            assert(td.skip(i as int).skip(1) =~= td.skip(i as int + 1));
            assert(td[i as int] == (table@[i as int].0@, table@[i as int].1@));
        }
        if crate::text::str_eq(table[i].0.as_str(), lw) {
            return Some(crate::json::clone_string(&table[i].1));
        }
        i = i + 1;
    }
    proof {
        assert(td.skip(n as int) =~= Seq::<(Seq<char>, Seq<char>)>::empty());
    }
    None
}

/// Translates a text word for word against a table.
fn translate_words(text: &str, table: &Vec<(String, String)>) -> (r: String)
    ensures
        r@ == translate_words_v(text@, table.deep_view()),
{
    let ghost td = table.deep_view();
    let cs = crate::text::chars_vec(text);
    let toks = crate::embed::split_tokens(&cs);
    let ghost parts = Seq::new(
        tokens(text@).len(),
        |i: int| word_out(td, tokens(text@)[i]),
    );
    let n = toks.len();
    let mut out: Vec<char> = Vec::new();
    let mut k: usize = 0;
    while k < n
        invariant
            k <= n,
            n == toks.len(),
            td == table.deep_view(),
            toks.deep_view() == tokens(text@),
            parts == Seq::new(
                tokens(text@).len(),
                |i: int| word_out(td, tokens(text@)[i]),
            ),
            parts.len() == n,
            out@ == join_pre(parts, k as int),
        decreases n - k,
    {
        if k > 0 {
            out.push(' ');
        }
        let ghost pre = out@;
        let ws = crate::text::string_from_chars(&toks[k]);
        let lw = crate::text::to_lowercase(ws.as_str());
        proof {
            assert(toks@[k as int]@ == toks.deep_view()[k as int]);
            assert(lw@ == lower_of(tokens(text@)[k as int]));
        }
        match lookup_word(table, lw.as_str()) {
            Some(t) => {
                push_chars_str(&mut out, t.as_str());
            },
            None => {
                push_chars_vec(&mut out, &toks[k]);
            },
        }
        proof {
            assert(out@ =~= pre + parts[k as int]);
            if k == 0 {
                assert(out@ =~= join_pre(parts, k as int + 1));
            } else {
                assert(out@ =~= join_pre(parts, k as int) + seq![' '] + parts[k as int]);
                assert(out@ =~= join_pre(parts, k as int + 1));
            }
        }
        k = k + 1;
    }
    crate::text::string_from_chars(&out)
}

impl AutoClassifier {
    /// Translates a text word for word between English and Vietnamese; any
    /// other language pair passes the text through.
    pub fn simple_translate(&self, text: &str, from_lang: &str, to_lang: &str) -> (r: String)
        ensures
            r@ == simple_translate_v(text@, from_lang@, to_lang@),
    {
        if crate::text::str_eq(from_lang, "vietnamese") && crate::text::str_eq(
            to_lang,
            "english",
        ) {
            let table = self.get_vi_to_en_translations();
            translate_words(text, &table)
        } else if crate::text::str_eq(from_lang, "english") && crate::text::str_eq(
            to_lang,
            "vietnamese",
        ) {
            let table = self.get_en_to_vi_translations();
            translate_words(text, &table)
        } else {
            text.to_owned()
        }
    }

    /// Detects the text's language and translates it into the target
    /// language; a text already in the target language passes through.
    pub fn translate_text(&self, text: &str, target_language: &str) -> (r: Result<
        TranslatedResult,
        crate::tools::ToolError,
    >)
        ensures
            r is Ok,
            r->Ok_0.original_text@ == text@,
            r->Ok_0.detected_language@ == detect_language_v(text@),
            r->Ok_0.target_language@ == target_language@,
            r->Ok_0.translated_text@ == (if detect_language_v(text@) == target_language@ {
                text@
            } else {
                simple_translate_v(text@, detect_language_v(text@), target_language@)
            }),
    {
        let detected_language = self.detect_language(text);
        if crate::text::str_eq(detected_language.as_str(), target_language) {
            Ok(
                TranslatedResult {
                    original_text: text.to_owned(),
                    translated_text: text.to_owned(),
                    detected_language,
                    target_language: target_language.to_owned(),
                },
            )
        } else {
            let translated = self.simple_translate(
                text,
                detected_language.as_str(),
                target_language,
            );
            Ok(
                TranslatedResult {
                    original_text: text.to_owned(),
                    translated_text: translated,
                    detected_language,
                    target_language: target_language.to_owned(),
                },
            )
        }
    }
}

} // verus!
