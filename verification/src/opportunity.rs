//! Opportunities shown to the user: the sample opportunities used to try the
//! interface, and the records of how the user answered one.
use vstd::prelude::*;
use crate::text::{join2, join3, signed_decimal_string, spec_signed_decimal};

verus! {

/// A user's answer to an opportunity.
#[derive(Debug, Clone)]
pub struct OpportunityResponse {
    pub opportunity_id: String,
    pub accepted: bool,
    pub timestamp: i64,
}

/// A user's rating of a chat message.
#[derive(Debug, Clone)]
pub struct FeedbackRecord {
    pub message_id: String,
    pub helpful: bool,
    pub timestamp: i64,
}

/// Where an opportunity was spotted.
#[derive(Debug, Clone)]
pub struct OpportunityContext {
    pub app: String,
    pub file: String,
    pub line: u32,
    pub code_snippet: Option<String>,
}

/// A button offered with an opportunity.
#[derive(Debug, Clone)]
pub struct OpportunityAction {
    pub id: String,
    pub label: String,
    pub icon: String,
    pub action_type: String,
}

/// A sample opportunity. The confidence is given in hundredths.
#[derive(Debug, Clone)]
pub struct MockOpportunity {
    pub id: String,
    pub title: String,
    pub description: String,
    pub context: OpportunityContext,
    pub opportunity_type: String,
    pub confidence_percent: u32,
    pub timestamp: i64,
    pub status: String,
    pub actions: Vec<OpportunityAction>,
}

/// The kinds of sample opportunity.
pub open spec fn spec_is_mock_kind(t: Seq<char>) -> bool {
    t == "refacto"@ || t == "debug"@ || t == "learn"@ || t == "tip"@
}

/// Identifier of a sample opportunity: `mock_<kind>_<timestamp>`.
pub open spec fn spec_mock_id(kind: Seq<char>, timestamp: i64) -> Seq<char> {
    "mock_"@ + kind + "_"@ + spec_signed_decimal(timestamp as int)
}

/// The view of an action as (id, label, icon, type).
pub open spec fn spec_action(a: OpportunityAction) -> (Seq<char>, Seq<char>, Seq<char>, Seq<char>) {
    (a.id@, a.label@, a.icon@, a.action_type@)
}

pub open spec fn spec_discuss() -> (Seq<char>, Seq<char>, Seq<char>, Seq<char>) {
    ("discuss"@, "Discuter"@, "💬"@, "discuss"@)
}

pub open spec fn spec_view() -> (Seq<char>, Seq<char>, Seq<char>, Seq<char>) {
    ("view"@, "Voir"@, "👁"@, "view"@)
}

pub open spec fn spec_ignore() -> (Seq<char>, Seq<char>, Seq<char>, Seq<char>) {
    ("ignore"@, "Ignorer"@, "🚫"@, "ignore"@)
}

/// The actions offered with a sample opportunity of a kind: a tip cannot be
/// discussed.
pub open spec fn spec_mock_actions(kind: Seq<char>) -> Seq<(Seq<char>, Seq<char>, Seq<char>, Seq<char>)> {
    if kind == "tip"@ {
        seq![spec_view(), spec_ignore()]
    } else {
        seq![spec_discuss(), spec_view(), spec_ignore()]
    }
}

/// Title, description, file, line, snippet and confidence of each kind.
pub open spec fn spec_mock_content(kind: Seq<char>) -> (Seq<char>, Seq<char>, Seq<char>, u32, Option<Seq<char>>, u32) {
    if kind == "refacto"@ {
        ("Code répété détecté"@,
         "Tu utilises le même pattern 3 fois dans UserService.ts. Veux-tu créer une fonction réutilisable ?"@,
         "src/services/UserService.ts"@, 42,
         Some("const user = await db.users.findOne({ id });\nif (!user) throw new Error('Not found');"@), 85)
    } else if kind == "debug"@ {
        ("Erreur persistante détectée"@,
         "TypeError sur la ligne 42 depuis 90 secondes. Besoin d'aide pour déboguer ?"@,
         "src/components/Dashboard.tsx"@, 42,
         Some("const data = response.data.map(item => item.value);"@), 92)
    } else if kind == "learn"@ {
        ("Opportunité d'apprentissage"@,
         "Tu viens d'utiliser une technique avancée de React Hooks. Veux-tu en savoir plus ?"@,
         "src/hooks/useCustomHook.ts"@, 15, None, 78)
    } else {
        ("Raccourci clavier disponible"@,
         "Savais-tu que Cmd+D peut dupliquer une ligne ? Ça pourrait t'aider ici."@,
         "src/utils/helpers.ts"@, 8, None, 65)
    }
}

/// What a sample opportunity of a known kind holds.
pub open spec fn spec_is_mock_opportunity(o: MockOpportunity, kind: Seq<char>, timestamp: i64) -> bool {
    let c = spec_mock_content(kind);
    &&& o.id@ == spec_mock_id(kind, timestamp)
    &&& o.title@ == c.0
    &&& o.description@ == c.1
    &&& o.context.app@ == "VS Code"@
    &&& o.context.file@ == c.2
    &&& o.context.line == c.3
    &&& match o.context.code_snippet {
        Some(s) => c.4 == Some(s@),
        None => c.4 is None,
    }
    &&& o.opportunity_type@ == kind
    &&& o.confidence_percent == c.5
    &&& o.timestamp == timestamp
    &&& o.status@ == "pending"@
    &&& o.actions@.map_values(|a: OpportunityAction| spec_action(a)) == spec_mock_actions(kind)
}

fn make_action(id: &str, label: &str, icon: &str) -> (a: OpportunityAction)
    ensures
        spec_action(a) == (id@, label@, icon@, id@),
{
    OpportunityAction {
        id: String::from_str(id),
        label: String::from_str(label),
        icon: String::from_str(icon),
        action_type: String::from_str(id),
    }
}

/// The actions offered with a sample opportunity.
fn mock_actions(with_discuss: bool) -> (v: Vec<OpportunityAction>)
    ensures
        with_discuss ==> v@.map_values(|a: OpportunityAction| spec_action(a)) == seq![spec_discuss(), spec_view(), spec_ignore()],
        !with_discuss ==> v@.map_values(|a: OpportunityAction| spec_action(a)) == seq![spec_view(), spec_ignore()],
{
    let mut v: Vec<OpportunityAction> = Vec::new();
    if with_discuss {
        v.push(make_action("discuss", "Discuter", "💬"));
    }
    v.push(make_action("view", "Voir", "👁"));
    v.push(make_action("ignore", "Ignorer", "🚫"));
    assert(v@.map_values(|a: OpportunityAction| spec_action(a)) =~= (if with_discuss {
        seq![spec_discuss(), spec_view(), spec_ignore()]
    } else {
        seq![spec_view(), spec_ignore()]
    }));
    v
}

/// The sample opportunity of a kind (`refacto`, `debug`, `learn` or `tip`)
/// stamped with `timestamp` (seconds); any other kind is refused with
/// `Unknown opportunity type: <kind>`.
pub fn mock_opportunity(opportunity_type: &str, timestamp: i64) -> (r: Result<MockOpportunity, String>)
    ensures
        spec_is_mock_kind(opportunity_type@) <==> r is Ok,
        r matches Ok(o) ==> spec_is_mock_opportunity(o, opportunity_type@, timestamp),
        r matches Err(e) ==> e@ == "Unknown opportunity type: "@ + opportunity_type@,
{
    let kind = String::from_str(opportunity_type);
    let refacto = String::from_str("refacto");
    let debug = String::from_str("debug");
    let learn = String::from_str("learn");
    let tip = String::from_str("tip");
    let is_refacto = kind == refacto;
    let is_debug = kind == debug;
    let is_learn = kind == learn;
    let is_tip = kind == tip;
    if !(is_refacto || is_debug || is_learn || is_tip) {
        return Err(join2("Unknown opportunity type: ", opportunity_type));
    }
    let stamp = signed_decimal_string(timestamp);
    let head = join3("mock_", opportunity_type, "_");
    let id = join2(head.as_str(), stamp.as_str());
    let (title, description, file, line, snippet, confidence): (&str, &str, &str, u32, Option<&str>, u32) =
        if is_refacto {
            ("Code répété détecté",
             "Tu utilises le même pattern 3 fois dans UserService.ts. Veux-tu créer une fonction réutilisable ?",
             "src/services/UserService.ts", 42,
             Some("const user = await db.users.findOne({ id });\nif (!user) throw new Error('Not found');"), 85)
        } else if is_debug {
            ("Erreur persistante détectée",
             "TypeError sur la ligne 42 depuis 90 secondes. Besoin d'aide pour déboguer ?",
             "src/components/Dashboard.tsx", 42,
             Some("const data = response.data.map(item => item.value);"), 92)
        } else if is_learn {
            ("Opportunité d'apprentissage",
             "Tu viens d'utiliser une technique avancée de React Hooks. Veux-tu en savoir plus ?",
             "src/hooks/useCustomHook.ts", 15, None, 78)
        } else {
            ("Raccourci clavier disponible",
             "Savais-tu que Cmd+D peut dupliquer une ligne ? Ça pourrait t'aider ici.",
             "src/utils/helpers.ts", 8, None, 65)
        };
    let code_snippet = match snippet {
        Some(s) => Some(String::from_str(s)),
        None => None,
    };
    let actions = mock_actions(!is_tip);
    Ok(MockOpportunity {
        id,
        title: String::from_str(title),
        description: String::from_str(description),
        context: OpportunityContext {
            app: String::from_str("VS Code"),
            file: String::from_str(file),
            line,
            code_snippet,
        },
        opportunity_type: kind,
        confidence_percent: confidence,
        timestamp,
        status: String::from_str("pending"),
        actions,
    })
}

} // verus!
