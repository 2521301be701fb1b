use qingjian::prompt::{
    assemble_reply, system_prompt, PredictionKind, PredictionRequest, RawReply, RawWord, Reply,
    TRANSLATE_SYSTEM_PROMPT,
};

/// The model's JSON reply read the way the server reads it: missing fields are
/// empty, and anything that is not such an object, or a field of the wrong
/// type, gives an empty reply.
fn parse_reply(content: &str, request: &PredictionRequest) -> Reply {
    match read_raw(content) {
        Some(raw) => assemble_reply(&raw, request),
        None => empty(),
    }
}

fn read_raw(content: &str) -> Option<RawReply> {
    let value: serde_json::Value = serde_json::from_str(content.trim()).ok()?;
    let object = value.as_object()?;
    let string = |v: Option<&serde_json::Value>| -> Option<String> {
        match v {
            None => Some(String::new()),
            Some(v) => v.as_str().map(str::to_owned),
        }
    };
    let optional = |key: &str| -> Option<Option<String>> {
        match object.get(key) {
            None | Some(serde_json::Value::Null) => Some(None),
            Some(v) => v.as_str().map(|s| Some(s.to_owned())),
        }
    };
    let words = |key: &str| -> Option<Vec<RawWord>> {
        match object.get(key) {
            None => Some(Vec::new()),
            Some(v) => v
                .as_array()?
                .iter()
                .map(|item| {
                    let item = item.as_object()?;
                    Some(RawWord { text: string(item.get("text"))?, pinyin: string(item.get("pinyin"))? })
                })
                .collect(),
        }
    };
    Some(RawReply {
        words: words("words")?,
        sentence: optional("sentence")?,
        sentence_pinyin: optional("sentence_pinyin")?,
        answers: words("answers")?,
    })
}

fn empty() -> Reply {
    Reply {
        words: Vec::new(),
        sentence: None,
    }
}

fn request(pinyin: &str, want_sentence: bool) -> PredictionRequest {
    PredictionRequest {
        sequence: 1,
        kind: PredictionKind::Compose,
        before: "我们今天".into(),
        after: String::new(),
        pinyin: pinyin.into(),
        letters: pinyin.replace('\'', ""),
        scheme: "全拼".into(),
        traditional: false,
        syllables: 2,
        candidates: vec!["张涛".into(), "张贴".into()],
        guess: String::new(),
        max_items: 2,
        want_sentence,
        text: String::new(),
        target_language: String::new(),
    }
}

#[test]
fn arabic_digits_pass_the_pinyin_check() {
    let reply = r#"{"words": [], "sentence": "我花123元", "sentence_pinyin": "wo hua yi bai er shi san yuan"}"#;
    let mut req = request("wo'hua'yi'bai'er'shi'san'yuan", true);
    req.syllables = 8;
    let parsed = parse_reply(reply, &req);
    assert_eq!(parsed.sentence.as_deref(), Some("我花123元"));
}

#[test]
fn mixed_arabic_digits_and_letters_in_one_sentence() {
    let reply = r#"{"words": [], "sentence": "我花123元买了三个mp3",
        "sentence_pinyin": "wo hua yi bai er shi san yuan mai le san ge mp san"}"#;
    let mut req = request("wo'hua'yi'bai'er'shi'san'yuan'mai'le'san'ge'mp'san", true);
    req.syllables = 14;
    let parsed = parse_reply(reply, &req);
    assert_eq!(parsed.sentence.as_deref(), Some("我花123元买了三个mp3"));
}

#[test]
fn reply_keeps_words_and_drops_the_first_page_duplicates() {
    let reply = r#"{"words": [{"text": "账套", "pinyin": "zhang tao"}, {"text": "张涛", "pinyin": "zhang tao"},
        {"text": "涨停", "pinyin": ""}, {"text": " 章台 ", "pinyin": "Zhang'Tai"}, {"text": "张套", "pinyin": "zhang tao"}],
        "sentence": " 账套已经建好了\n"}"#;
    let parsed = parse_reply(reply, &request("zhang'tao", true));
    let texts: Vec<(&str, Vec<&str>)> = parsed
        .words
        .iter()
        .map(|w| {
            (
                w.text.as_str(),
                w.syllables.iter().map(String::as_str).collect(),
            )
        })
        .collect();
    assert_eq!(texts, [("账套", vec!["zhang", "tao"]), ("涨停", vec![])]);
    assert_eq!(parsed.sentence.as_deref(), Some("账套已经建好了"));
    assert_eq!(
        parse_reply(reply, &request("zhang'tao", false)).sentence,
        None
    );
    let echoed = r#"{"words": [], "sentence": "我们今天账套已经建好了"}"#;
    assert_eq!(
        parse_reply(echoed, &request("zhang'tao", true))
            .sentence
            .as_deref(),
        Some("账套已经建好了")
    );
    let partial = r#"{"words": [], "sentence": "今天账套已经建好了"}"#;
    assert_eq!(
        parse_reply(partial, &request("zhang'tao", true))
            .sentence
            .as_deref(),
        Some("账套已经建好了")
    );
}

#[test]
fn question_replies_keep_answers_with_readings() {
    let mut question = request("san'ge'mu", false);
    question.kind = PredictionKind::Question;
    question.candidates.clear();
    let reply = r#"{"answers": [{"text": "森", "pinyin": "sēn"}, {"text": "森", "pinyin": "sēn"}, {"text": "巴黎", "pinyin": ""}]}"#;
    let parsed = parse_reply(reply, &question);
    assert_eq!(parsed.words.len(), 2);
    assert_eq!(parsed.words[0].text, "森");
    assert_eq!(parsed.words[0].reading.as_deref(), Some("sēn"));
    assert!(parsed.words[0].syllables.is_empty());
    assert_eq!(parsed.words[1].reading, None);
    assert_eq!(parsed.sentence, None);
}

#[test]
fn reply_drops_the_after_text_that_the_model_echoed() {
    let mut request = request("liangg", true);
    request.before = "笛卡儿积是一种二元运算，把".into();
    request.after = "按顺序两两配对组成有序对。".into();
    let echoed = r#"{"words": [], "sentence": "两个集合中的元素按顺序两两配对组成有序对。", "sentence_pinyin": "liang ge"}"#;
    assert_eq!(
        parse_reply(echoed, &request).sentence.as_deref(),
        Some("两个集合中的元素")
    );
    let both = r#"{"words": [], "sentence": "把两个集合中的元素按顺序两两配对组成有序对。", "sentence_pinyin": "liang ge"}"#;
    assert_eq!(
        parse_reply(both, &request).sentence.as_deref(),
        Some("两个集合中的元素")
    );
    let unrelated =
        r#"{"words": [], "sentence": "两个集合做笛卡儿积。", "sentence_pinyin": "liang ge"}"#;
    assert_eq!(
        parse_reply(unrelated, &request).sentence.as_deref(),
        Some("两个集合做笛卡儿积。")
    );
    let only_after = r#"{"words": [], "sentence": "按顺序两两配对组成有序对。", "sentence_pinyin": "an shun"}"#;
    assert!(parse_reply(only_after, &request).sentence.is_none());
}

#[test]
fn reply_drops_a_sentence_that_rephrases_the_after_text() {
    let mut req = request("dx", true);
    req.before = "高等数学是".into();
    req.after = "最重要的基础课程之一".into();
    let rephrased = r#"{"words": [{"text": "大学", "pinyin": "da xue"}], "sentence": "大学阶段学习的重要基础课程之一", "sentence_pinyin": "da xue"}"#;
    let parsed = parse_reply(rephrased, &req);
    assert_eq!(parsed.words[0].text, "大学", "the words are not affected");
    assert!(
        parsed.sentence.is_none(),
        "a sentence restating the text after the cursor is dropped, got {:?}",
        parsed.sentence
    );
    let gap = r#"{"words": [], "sentence": "大学", "sentence_pinyin": "da xue"}"#;
    assert_eq!(parse_reply(gap, &req).sentence.as_deref(), Some("大学"));
    let mut bare = request("dx", true);
    bare.before = "高等数学是".into();
    let normal =
        r#"{"words": [], "sentence": "大学是人生的新起点。", "sentence_pinyin": "da xue"}"#;
    assert_eq!(
        parse_reply(normal, &bare).sentence.as_deref(),
        Some("大学是人生的新起点。")
    );
}

#[test]
fn a_sentence_is_taken_as_is_without_any_pinyin() {
    let mut req = request("javashiyimenbianchengyuyan", true);
    req.before = String::new();
    req.candidates = vec!["就啊".into(), "骄傲".into()];
    let mixed = r#"{"words": [], "sentence": "Java 是一门编程语言"}"#;
    assert_eq!(
        parse_reply(mixed, &req).sentence.as_deref(),
        Some("Java 是一门编程语言")
    );
    let mut gap = request("dx", true);
    gap.before = "高等数学是一门非常重要的".into();
    gap.after = "课程".into();
    let semantic = r#"{"words": [], "sentence": "基础", "sentence_pinyin": "ji chu"}"#;
    assert_eq!(
        parse_reply(semantic, &gap).sentence.as_deref(),
        Some("基础")
    );
}

#[test]
fn continuation_replies_are_taken_as_is() {
    let mut req = request("", true);
    req.letters = String::new();
    req.candidates.clear();
    req.before = "笛卡儿积是一种二元运算，把两个集合".into();
    req.after = "按顺序两两配对组成有序对。".into();
    let reply = r#"{"words": [], "sentence": "中的元素"}"#;
    assert_eq!(
        parse_reply(reply, &req).sentence.as_deref(),
        Some("中的元素")
    );
    let echoed = r#"{"words": [], "sentence": "按顺序两两配对组成有序对。"}"#;
    assert!(parse_reply(echoed, &req).sentence.is_none());
    assert!(parse_reply(r#"{"words": []}"#, &req).sentence.is_none());
}

#[test]
fn a_gap_filling_sentence_may_match_a_first_page_candidate() {
    let mut req = request("da'xue", true);
    req.before = "高等数学是".into();
    req.after = "最重要的基础课程之一".into();
    req.candidates = vec!["大学".into(), "大雪".into()];
    let reply = r#"{"words": [], "sentence": "大学"}"#;
    assert_eq!(
        parse_reply(reply, &req).sentence.as_deref(),
        Some("大学"),
        "filling a gap, the answer is often the local word and is kept"
    );
    let mut bare = request("da'xue", true);
    bare.candidates = vec!["大学".into()];
    assert!(parse_reply(reply, &bare).sentence.is_none());
}

#[test]
fn garbage_replies_are_empty() {
    assert_eq!(parse_reply("not json", &request("k", false)), empty());
    assert_eq!(parse_reply(r#"{"foo": 1}"#, &request("zt", false)), empty());
    assert!(parse_reply(r#"{"foo": 1}"#, &request("zt", false)).is_empty());
}

#[test]
fn translate_requests_use_their_own_prompt_and_keep_the_translation() {
    let mut translate = request("", false);
    translate.kind = PredictionKind::Translate;
    translate.text = "我想去吃饭".to_owned();
    translate.target_language = "en".to_owned();
    assert_eq!(system_prompt(&translate), TRANSLATE_SYSTEM_PROMPT);
    let reply = parse_reply(r#"{"sentence": "  I want to go eat.\n"}"#, &translate);
    assert_eq!(reply.sentence.as_deref(), Some("I want to go eat."));
    assert!(reply.words.is_empty());
    assert!(
        parse_reply(r#"{"sentence": ""}"#, &translate)
            .sentence
            .is_none()
    );
}

#[test]
fn max_items_zero_keeps_no_words() {
    let mut req = request("zhang'tao", true);
    req.max_items = 0;
    let reply = r#"{"words": [{"text": "张涛"}, {"text": "账套"}, {"text": "涨停"}], "sentence": "账套建好了"}"#;
    let parsed = parse_reply(reply, &req);
    assert!(parsed.words.is_empty());
    assert_eq!(parsed.sentence.as_deref(), Some("账套建好了"));
}

#[test]
fn a_wrongly_typed_field_empties_the_reply() {
    let req = request("zhang'tao", true);
    let reply = r#"{"words": [{"text": "账套"}], "sentence": 3}"#;
    assert_eq!(parse_reply(reply, &req), empty());
    let reply = r#"{"words": [{"text": 1}], "sentence": "账套建好了"}"#;
    assert_eq!(parse_reply(reply, &req), empty());
}

#[test]
fn syllables_are_lower_case_and_split_on_spaces_and_quotes() {
    let req = request("zhang'tao", false);
    let reply = r#"{"words": [{"text": "章台", "pinyin": "  Zhang''TAI\tX "}]}"#;
    let parsed = parse_reply(reply, &req);
    assert_eq!(parsed.words[0].syllables, vec!["zhang", "tai", "x"]);
}

#[test]
fn line_breaks_inside_a_sentence_are_removed_but_translations_keep_them() {
    let req = request("zhang'tao", true);
    let reply = r#"{"sentence": "账套\r\n已经建好了"}"#;
    assert_eq!(
        parse_reply(reply, &req).sentence.as_deref(),
        Some("账套已经建好了")
    );
    let mut translate = request("", false);
    translate.kind = PredictionKind::Translate;
    let two = r#"{"sentence": " first\nsecond "}"#;
    assert_eq!(
        parse_reply(two, &translate).sentence.as_deref(),
        Some("first\nsecond")
    );
}

#[test]
fn question_prompt_and_compose_prompt_differ() {
    let mut question = request("san'ge'mu", false);
    question.kind = PredictionKind::Question;
    let compose = request("san'ge'mu", false);
    assert_ne!(system_prompt(&question), system_prompt(&compose));
    assert!(system_prompt(&compose).contains("联想引擎"));
    assert!(system_prompt(&question).contains("问字助手"));
}
