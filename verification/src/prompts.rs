//! The prompts, in English and in Italian, with their placeholders in braces.

use vstd::prelude::*;

use crate::text::same_text;

verus! {

/// Asks whether a conversation has reached a boundary, in English.
pub const BOUNDARY_EN: &'static str = "Analyze this conversation and determine if the NEW MESSAGES represent
a topic boundary (end of a coherent conversation segment).

CONVERSATION HISTORY:
{history}

NEW MESSAGES:
{new_messages}

Decision criteria (priority order):
1. Substantive Topic Change: completely different topic with meaningful content?
2. Intent/Purpose Transition: core question resolved, new substantial topic beginning?
3. Meaningful Content: ignore greetings/small talk, focus on memorable content
4. Temporal Signals: significant time gap? explicit concluding statements?
5. Content Independence: how related is new content to previous discussion?

Special rules:
- Greeting + Topic = ONE episode (do not split)
- \"By the way\" / \"Speaking of\" = usually same episode
- Farewells/closures = end of current episode, do not start new one

Respond ONLY with valid JSON:
{\"reasoning\": \"one sentence\", \"should_end\": true, \"confidence\": 0.85, \"topic_summary\": \"summary if should_end, else empty string\"}
";

/// Asks whether a conversation has reached a boundary, in Italian.
pub const BOUNDARY_IT: &'static str = "Analizza questa conversazione e stabilisci se i NUOVI MESSAGGI rappresentano
un confine di argomento (fine di un segmento coerente della conversazione).

STORICO DELLA CONVERSAZIONE:
{history}

NUOVI MESSAGGI:
{new_messages}

Criteri di decisione (in ordine di priorità):
1. Cambio sostanziale di argomento: argomento completamente diverso con contenuto significativo?
2. Transizione di intento/scopo: domanda principale risolta, inizia un nuovo argomento sostanziale?
3. Contenuto significativo: ignora saluti e chiacchiere, concentrati sui contenuti memorabili
4. Segnali temporali: intervallo di tempo significativo? frasi conclusive esplicite?
5. Indipendenza del contenuto: quanto è legato il nuovo contenuto alla discussione precedente?

Regole speciali:
- Saluto + Argomento = UN SOLO episodio (non dividere)
- \"A proposito\" / \"Parlando di\" = di solito stesso episodio
- Congedi/chiusure = fine dell'episodio corrente, non iniziarne uno nuovo

Rispondi SOLO con JSON valido (le chiavi JSON devono restare in inglese):
{\"reasoning\": \"una frase\", \"should_end\": true, \"confidence\": 0.85, \"topic_summary\": \"riassunto se should_end, altrimenti stringa vuota\"}
";

/// Asks for the narrative of a conversation, in English.
pub const EPISODE_EN: &'static str = "Convert this conversation into a concise third-person narrative.

CONVERSATION:
{conversation}

Requirements:
- Chronological factual record with all important info
- Preserve: person names, dates, locations, emotions, decisions, outcomes
- Time references as: \"relative time (absolute date)\"
- Record frequency information (patterns, repetitions)
- Remove redundancies while keeping all facts
- Do NOT include greetings/small talk

Respond ONLY with valid JSON:
{\"subject\": \"concise title (10-20 words)\", \"episode\": \"third-person narrative\", \"summary\": \"2-3 sentence abstract\"}
";

/// Asks for the narrative of a conversation, in Italian.
pub const EPISODE_IT: &'static str = "Trasforma questa conversazione in una narrazione concisa in terza persona.

CONVERSAZIONE:
{conversation}

Requisiti:
- Resoconto cronologico e fattuale con tutte le informazioni importanti
- Conserva: nomi di persone, date, luoghi, emozioni, decisioni, esiti
- Riferimenti temporali nella forma: \"tempo relativo (data assoluta)\"
- Registra le informazioni di frequenza (schemi, ripetizioni)
- Elimina le ridondanze mantenendo tutti i fatti
- NON includere saluti e chiacchiere

Rispondi SOLO con JSON valido (le chiavi JSON devono restare in inglese):
{\"subject\": \"titolo conciso (10-20 parole)\", \"episode\": \"narrazione in terza persona\", \"summary\": \"sintesi di 2-3 frasi\"}
";

/// Asks for the atomic facts of a conversation, in English.
pub const EVENT_LOG_EN: &'static str = "Extract atomic facts from this conversation.

CONVERSATION:
{conversation}

Rules:
- Each fact = exactly one coherent unit (action, emotion, plan, decision)
- Single complete sentence, third-person form
- Explicit attribution: always state WHO said/did what
- Resolve pronouns to specific names
- Preserve timestamps; resolve relative times with absolute dates
- Filter out: greetings, \"okay\", low-value chatter

Respond ONLY with valid JSON:
{\"atomic_facts\": [{\"fact\": \"sentence\", \"time\": \"time reference or null\"}]}
";

/// Asks for the atomic facts of a conversation, in Italian.
pub const EVENT_LOG_IT: &'static str = "Estrai i fatti atomici da questa conversazione.

CONVERSAZIONE:
{conversation}

Regole:
- Ogni fatto = esattamente un'unità coerente (azione, emozione, piano, decisione)
- Una sola frase completa, in terza persona
- Attribuzione esplicita: indica sempre CHI ha detto o fatto cosa
- Risolvi i pronomi in nomi specifici
- Conserva i riferimenti temporali; risolvi i tempi relativi con date assolute
- Escludi: saluti, \"okay\", chiacchiere di poco valore

Rispondi SOLO con JSON valido (le chiavi JSON devono restare in inglese):
{\"atomic_facts\": [{\"fact\": \"frase\", \"time\": \"riferimento temporale o null\"}]}
";

/// Asks for predictions, in English.
pub const FORESIGHT_EN: &'static str = "Based on this conversation and its episode summary, generate 4-8
predictions about how the user's behavior or situation may change.

Episode summary:
{episode_summary}

Original conversation:
{buffer_content}

Use \"associative prediction\": predict personal-level behavioral
impacts, not summaries.

Each prediction must be:
- Specific, reasonable, and verifiable
- Max 40 words
- Grounded in evidence from the conversation
- Time-bounded (when does it start, when does it expire?)

Respond ONLY with valid JSON:
{\"foresights\": [{\"content\": \"prediction text (max 40 words)\", \"evidence\": \"supporting fact from conversation (max 40 words)\", \"start_time\": \"YYYY-MM-DD\", \"end_time\": \"YYYY-MM-DD\"}]}

If no meaningful predictions can be made, return {\"foresights\": []}
";

/// Asks for predictions, in Italian.
pub const FORESIGHT_IT: &'static str = "In base a questa conversazione e al riassunto del suo episodio, genera 4-8
previsioni su come potrebbero cambiare il comportamento o la situazione dell'utente.

Riassunto dell'episodio:
{episode_summary}

Conversazione originale:
{buffer_content}

Usa la \"previsione associativa\": prevedi gli impatti comportamentali
a livello personale, non fare riassunti.

Ogni previsione deve essere:
- Specifica, ragionevole e verificabile
- Massimo 40 parole
- Fondata su un'evidenza della conversazione
- Limitata nel tempo (quando inizia, quando scade?)

Rispondi SOLO con JSON valido (le chiavi JSON devono restare in inglese):
{\"foresights\": [{\"content\": \"testo della previsione (max 40 parole)\", \"evidence\": \"fatto a sostegno dalla conversazione (max 40 parole)\", \"start_time\": \"YYYY-MM-DD\", \"end_time\": \"YYYY-MM-DD\"}]}

Se non è possibile fare previsioni significative, restituisci {\"foresights\": []}
";

/// Asks for the profile of a user, in English.
pub const PROFILE_EN: &'static str = "Analyze these conversation episodes and extract/update the user profile.

Current profile (may be empty if first extraction):
{current_profile_json}

New episodes to analyze:
{recent_episodes}

For each attribute, provide evidence (episode IDs that support it).
For skill-like attributes, assign a level: \"beginner\", \"intermediate\", \"advanced\", \"expert\".

Respond ONLY with valid JSON matching this schema:
{
  \"user_name\": \"string or null\",
  \"hard_skills\": [{\"value\": \"skill name\", \"level\": \"level\", \"evidences\": [\"ep_id\"]}],
  \"soft_skills\": [{\"value\": \"skill name\", \"level\": \"level\", \"evidences\": [\"ep_id\"]}],
  \"personality\": [{\"value\": \"trait description\", \"evidences\": [\"ep_id\"]}],
  \"way_of_decision_making\": [{\"value\": \"description\", \"evidences\": [\"ep_id\"]}],
  \"interests\": [{\"value\": \"interest\", \"evidences\": [\"ep_id\"]}],
  \"user_goal\": [{\"value\": \"goal\", \"evidences\": [\"ep_id\"]}],
  \"work_responsibility\": [{\"value\": \"responsibility\", \"evidences\": [\"ep_id\"]}],
  \"working_habit_preference\": [{\"value\": \"preference\", \"evidences\": [\"ep_id\"]}],
  \"tendency\": [{\"value\": \"tendency\", \"evidences\": [\"ep_id\"]}],
  \"motivation_system\": [{\"value\": \"motivation\", \"level\": \"level\", \"evidences\": [\"ep_id\"]}],
  \"fear_system\": [{\"value\": \"fear\", \"level\": \"level\", \"evidences\": [\"ep_id\"]}],
  \"value_system\": [{\"value\": \"value\", \"level\": \"level\", \"evidences\": [\"ep_id\"]}],
  \"humor_use\": [{\"value\": \"humor style\", \"level\": \"level\", \"evidences\": [\"ep_id\"]}],
  \"colloquialism\": [{\"value\": \"speech pattern\", \"level\": \"level\", \"evidences\": [\"ep_id\"]}]
}

Rules:
- Merge with existing profile: update levels if evidence is stronger, add new attributes
- Keep highest level when conflicting evidence exists
- Truncate evidences to max 10 per attribute
- Only add attributes with clear evidence, never speculate
- Omit empty arrays (attributes with no evidence)
";

/// Asks for the profile of a user, in Italian.
pub const PROFILE_IT: &'static str = "Analizza questi episodi di conversazione ed estrai/aggiorna il profilo utente.

Profilo attuale (può essere vuoto se è la prima estrazione):
{current_profile_json}

Nuovi episodi da analizzare:
{recent_episodes}

Per ogni attributo, fornisci le evidenze (ID degli episodi che lo supportano).
Per gli attributi con livello, assegna uno tra: \"beginner\", \"intermediate\", \"advanced\", \"expert\".

Rispondi SOLO con JSON valido con questa struttura (le chiavi JSON devono restare in inglese):
{
  \"user_name\": \"stringa o null\",
  \"hard_skills\": [{\"value\": \"nome della competenza\", \"level\": \"livello\", \"evidences\": [\"ep_id\"]}],
  \"soft_skills\": [{\"value\": \"nome della competenza\", \"level\": \"livello\", \"evidences\": [\"ep_id\"]}],
  \"personality\": [{\"value\": \"descrizione del tratto\", \"evidences\": [\"ep_id\"]}],
  \"way_of_decision_making\": [{\"value\": \"descrizione\", \"evidences\": [\"ep_id\"]}],
  \"interests\": [{\"value\": \"interesse\", \"evidences\": [\"ep_id\"]}],
  \"user_goal\": [{\"value\": \"obiettivo\", \"evidences\": [\"ep_id\"]}],
  \"work_responsibility\": [{\"value\": \"responsabilità\", \"evidences\": [\"ep_id\"]}],
  \"working_habit_preference\": [{\"value\": \"preferenza\", \"evidences\": [\"ep_id\"]}],
  \"tendency\": [{\"value\": \"tendenza\", \"evidences\": [\"ep_id\"]}],
  \"motivation_system\": [{\"value\": \"motivazione\", \"level\": \"livello\", \"evidences\": [\"ep_id\"]}],
  \"fear_system\": [{\"value\": \"paura\", \"level\": \"livello\", \"evidences\": [\"ep_id\"]}],
  \"value_system\": [{\"value\": \"valore\", \"level\": \"livello\", \"evidences\": [\"ep_id\"]}],
  \"humor_use\": [{\"value\": \"stile di umorismo\", \"level\": \"livello\", \"evidences\": [\"ep_id\"]}],
  \"colloquialism\": [{\"value\": \"modo di parlare\", \"level\": \"livello\", \"evidences\": [\"ep_id\"]}]
}

Regole:
- Integra con il profilo esistente: aggiorna i livelli se le evidenze sono più forti, aggiungi nuovi attributi
- Mantieni il livello più alto in caso di evidenze contrastanti
- Tronca le evidenze a max 10 per attributo
- Aggiungi attributi solo con evidenze chiare, mai speculare
- Ometti gli array vuoti (attributi senza evidenze)
";

/// Whether the prompts are in Italian.
pub open spec fn is_italian(language: Seq<char>) -> bool {
    language == "it"@
}

/// The prompt that asks for a boundary, with the places `{history}` and `{new_messages}`.
pub open spec fn boundary_prompt(language: Seq<char>) -> Seq<char> {
    if is_italian(language) {
        BOUNDARY_IT@
    } else {
        BOUNDARY_EN@
    }
}

/// Chooses the prompt that asks for a boundary.
pub fn choose_boundary_prompt(language: &str) -> (prompt: &'static str)
    ensures
        prompt@ == boundary_prompt(language@),
{
    if same_text(language, "it") {
        BOUNDARY_IT
    } else {
        BOUNDARY_EN
    }
}

/// The prompt for the narrative of a conversation, with the place `{conversation}`.
pub open spec fn episode_prompt(language: Seq<char>) -> Seq<char> {
    if is_italian(language) {
        EPISODE_IT@
    } else {
        EPISODE_EN@
    }
}

/// Chooses the prompt for the narrative of a conversation.
pub fn choose_episode_prompt(language: &str) -> (prompt: &'static str)
    ensures
        prompt@ == episode_prompt(language@),
{
    if same_text(language, "it") {
        EPISODE_IT
    } else {
        EPISODE_EN
    }
}

/// The prompt for the atomic facts of a conversation, with the place `{conversation}`.
pub open spec fn event_log_prompt(language: Seq<char>) -> Seq<char> {
    if is_italian(language) {
        EVENT_LOG_IT@
    } else {
        EVENT_LOG_EN@
    }
}

/// Chooses the prompt for the atomic facts of a conversation.
pub fn choose_event_log_prompt(language: &str) -> (prompt: &'static str)
    ensures
        prompt@ == event_log_prompt(language@),
{
    if same_text(language, "it") {
        EVENT_LOG_IT
    } else {
        EVENT_LOG_EN
    }
}

/// The prompt for predictions, with the places `{episode_summary}` and `{buffer_content}`.
pub open spec fn foresight_prompt(language: Seq<char>) -> Seq<char> {
    if is_italian(language) {
        FORESIGHT_IT@
    } else {
        FORESIGHT_EN@
    }
}

/// Chooses the prompt for predictions.
pub fn choose_foresight_prompt(language: &str) -> (prompt: &'static str)
    ensures
        prompt@ == foresight_prompt(language@),
{
    if same_text(language, "it") {
        FORESIGHT_IT
    } else {
        FORESIGHT_EN
    }
}

/// The prompt for the profile of a user, with the places `{current_profile_json}` and `{recent_episodes}`.
pub open spec fn profile_prompt(language: Seq<char>) -> Seq<char> {
    if is_italian(language) {
        PROFILE_IT@
    } else {
        PROFILE_EN@
    }
}

/// Chooses the prompt for the profile of a user.
pub fn choose_profile_prompt(language: &str) -> (prompt: &'static str)
    ensures
        prompt@ == profile_prompt(language@),
{
    if same_text(language, "it") {
        PROFILE_IT
    } else {
        PROFILE_EN
    }
}

} // verus!
