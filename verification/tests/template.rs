use symposium::collections::StringMap;
use symposium::domain::issue::Issue;
use symposium::error::Error;
use symposium::prompt::{build_prompt, globals_for};
use symposium::steady::check_template;

fn issue() -> Issue {
    Issue {
        identifier: "TASK-1".to_string(),
        title: "[iOS] Title".to_string(),
        description: Some("-9223372036854775808".to_string()),
        status: "Todo".to_string(),
        priority: None,
        url: None,
        notion_page_id: None,
        blockers: vec![],
        source: "notion".to_string(),
        extra: StringMap::new(),
        comments: vec![],
        workflow_id: String::new(),
    }
}

fn steady(template: &str, issue: &Issue) -> bool {
    check_template(template, &globals_for(issue, Some(2), None, None))
}

#[test]
fn ordinary_templates_are_accepted() {
    for template in [
        "",
        "plain text with 99999999999999999999 and — dashes",
        "Work on {{ issue.identifier }}: {{ issue.title }}\n{{ issue.description }}",
        "{% if issue.title contains '[iOS]' %}mail-ios{% endif %}",
        "{% if attempt %}Retry #{{ attempt | plus: 1 }}{% else %}First{% endif %}",
        "{%- for word in words -%}{{ forloop.index | minus: 1 }}{%- endfor -%}",
        "{{ issue.title | downcase | replace: \" \", \"-\" | slice: 0, 20 }}",
        "{{ issue.title | slice: -3 }}{{ 7 | divided_by: 2.0 }}{{ issue.title.size | modulo: 2 }}",
        "{{ \"now\" | date: \"%Y-%m-%d\" }}{{ 'now' | date: '%d. %B — %Y, 12345' }}",
        "{{ \"now\" | date: \"%Y年%m月%d日\" }}",
        "— {% if issue.priority == \"High\" %}{{ issue.title | upcase }}{% endif %}",
        "— {{ \"a\" | append: issue.title }} {%- assign x = \"é\" -%}\n{% if\nx %}{{ x }}{% endif %}",
        "{% cycle 'a', 'b' %}{% for i in (1..3) %}{{ i | times: 10 }}{% endfor %}",
        "{% for i in (1 .. attempt) %}{% endfor %}",
        "{% tablerow cols in list cols: 2 limit: n %}{% endtablerow %}",
        "{{ 1.99999999999999999999999 }}{{ 9223372036854775807 }}{{ v99999999999999999999 }}",
        "{{ 'a,b' | split: ',' | sort | concat: x | sort | join: ' ' }}",
        "{% comment %} note {{ issue.title }} {% endcomment %}",
        "{%- comment -%} note {{- issue.title -}} {%- endcomment -%}{% if attempt %}{% endif %}",
        "{% comment %}{% if a == \"{% endcomment %}\" %}x{% else %}y{% endif %}{% endcomment %}",
        "{% comment %}{% comment %}{% for a in b %}{{ a | upcase }}{% endfor %}{% endcomment %}{% endcomment %}",
    ] {
        assert!(steady(template, &issue()), "{template}");
    }
}

#[test]
fn arithmetic_on_data_goes_by_the_data() {
    let mut issue = issue();
    let sums = [
        "{{ issue.description | plus: 1 }}",
        "{{ issue.extra.points | times: 1000 | minus: issue.description }}",
        "{{ issue.identifier | split: '-' | last | plus: 1 }}",
        "{{ issue.identifier | remove: 'TASK-' | times: attempt }}",
        "{% assign parts = issue.identifier | split: '-' %}{{ parts | last | plus: 1 }}{{ parts[1] | plus: 1 }}",
        "{% assign n = 0 %}{% for i in (1..3) %}{% assign n = n | plus: 2 %}{% endfor %}{{ n | minus: 1 }}",
        "{% assign attempt = attempt | default: 1 | times: 2 %}{{ attempt }}",
        "{{ issue.title.size | plus: 1 | divided_by: attempt }}",
        "{{ issue.extra.points | modulo: issue.extra.points | abs }}",
        "{% assign e = issue.extra %}{{ e.points | plus: 1 }}",
    ];
    issue.description = Some("41".to_string());
    issue.extra.insert("points".to_string(), "12".to_string());
    issue.title = "has 99999999999999999999 in it".to_string();
    for template in &sums[..6] {
        assert!(steady(template, &issue), "{template}");
    }
    for template in &sums[7..] {
        assert!(steady(template, &issue), "{template}");
    }
    let rendered = |t: &str| build_prompt(t, &issue, Some(2)).unwrap();
    assert_eq!(rendered(sums[0]), "42");
    assert_eq!(rendered(sums[1]), "11959");
    assert_eq!(rendered(sums[2]), "2");
    assert_eq!(rendered(sums[3]), "2");
    assert_eq!(rendered(sums[4]), "22");
    assert_eq!(rendered(sums[5]), "5");
    assert_eq!(rendered(sums[7]), "15");
    assert_eq!(rendered(sums[8]), "0");
    assert_eq!(rendered(sums[9]), "13");
    // A name that is computed from itself is not followed, but for steps
    assert!(!steady(sums[6], &issue));
    // A field with a large number
    issue.extra.insert("points".to_string(), "9223372036854775807".to_string());
    assert!(!steady(sums[1], &issue));
    assert!(!steady(sums[8], &issue));
    assert!(!steady(sums[9], &issue));
    assert!(steady(sums[0], &issue));
    // A name that is bound in some rounds only is one of the data in others
    let either = "{% if x %}{% assign points = 1 %}{% endif %}{{ points | plus: 1 }}";
    assert!(!steady(either, &issue));
    issue.extra.insert("points".to_string(), "12".to_string());
    assert!(steady(either, &issue));
    assert!(steady("{% assign attempt = attempt | plus: 1 %}{{ attempt }}", &issue));
}

#[test]
fn templates_that_could_break_off_are_refused() {
    for template in [
        "{{ 99999999999999999999 }}",
        "{{ 9223372036854775808 }}",
        "{% if x == nil9223372036854775808 %}{% endif %}",
        "{{ issue.description | divided_by: -1 }}",
        "{{ issue.description | modulo: x }}",
        "{{ issue.description | abs }}",
        "{{ issue.description | plus: 1 }}",
        "{{ issue.description | slice: 1, 19 | plus: 1 }}",
        "{{ issue['description'] | plus: 1 }}",
        "{% for p in issue %}{{ p[1] | minus: 1 }}{% endfor %}",
        "{% capture x %}{{ issue.description }}{% endcapture %}{{ x | times: 2 }}",
        "{{ attempt | times: 999999999 }}",
        "{{ attempt | times: 99999999 | plus: 1 | times: 9 }}",
        "{% assign n = 9 %}{% for i in (1..99) %}{% assign n = n | times: n %}{% endfor %}",
        "{% cycle name: %}",
        "{%- cycle 'name': -%}",
        "{% tablerow c in list cols: 0 %}{% endtablerow %}",
        "{% tablerow c in list cols: n %}{% endtablerow %}",
        "{% for i in (1..99999999999) %}{% endfor %}",
        "{% for i in (1..issue.description) %}{% endfor %}",
        "{{ 'now' | date: '%99999N' }}",
        "{{ 'now' | date: '%é' }}",
        "{{ 'now' | date: '%-Oé' }}",
        "{{ 'now' | date: issue.title }}",
        "{% for p in issue %}{% assign a = a | concat: p | sort %}{% endfor %}",
        "{{ x | slice: 0, 9223372036854775807 }}",
        "{{ \"éééééé\" }} {{ bad \" }}",
        "{{ a[a[a[a[a[a[a[a[a[a[a[a[a[a[a[a[a[0]]]]]]]]]]]]]]]]] }}",
        "{% comment %}{% raw %}",
        "{% comment %}{% if attempt %}",
        "{%- comment -%}{% if attempt %}{{ bad ' }}{% endif %}{% endcomment %}",
        "{% comment %}{{ \"{% endcomment %}\" }}{% if attempt %}",
        "{% comment %}{% if attempt %}{% endcomment %}{% endif %}",
        "{% comment %} open",
    ] {
        assert!(!steady(template, &issue()), "{template}");
        let refused = build_prompt(template, &issue(), Some(1)).unwrap_err();
        assert!(matches!(refused, Error::Prompt(_)));
        assert!(refused.message().ends_with("cannot be rendered reliably"), "{template}");
    }
}

#[test]
fn accepted_templates_come_to_a_text_or_an_error() {
    let issue = issue();
    let rendered = |t: &str| build_prompt(t, &issue, Some(2));
    assert_eq!(rendered("{{ attempt | plus: 1 }}").unwrap(), "3");
    assert_eq!(rendered("{{ issue.description | divided_by: 2 }}").unwrap(), "-4611686018427387904");
    assert_eq!(rendered("{{ issue.description | divided_by: 0 }}").is_err(), true);
    assert_eq!(rendered("{{ issue.title | slice: 0, 5 }}").unwrap(), "[iOS]");
    assert_eq!(rendered("{% for i in (1..attempt) %}{{ forloop.index | times: 10 }} {% endfor %}").unwrap(), "10 20 ");
    assert_eq!(rendered("{{ '2026-03-01 10:00:00' | date: '%d/%m' }}").unwrap(), "01/03");
    assert_eq!(rendered("{{ '2026-03-01 10:00:00' | date: '%-d. — %Y年' }}").unwrap(), "1. — 2026年");
    assert_eq!(rendered("— {% if issue.status == \"Todo\" %}{{ issue.identifier | downcase }}{% endif %}").unwrap(), "— task-1");
    assert_eq!(rendered("a {%- comment -%} {{ issue.title }} {%- endcomment -%} b").unwrap(), "ab");
    assert_eq!(rendered("{% comment %}{{- nothing -}}{% endcomment %}{{- attempt -}}").unwrap(), "2");
    assert_eq!(rendered("{% comment %}{% if a == \"{% endcomment %}\" %}x{% endif %}{% endcomment %}y").unwrap(), "y");
    assert!(rendered("{{ bad ' }}").is_err());
    assert!(rendered("{{ -5 | plus: 1 }}").is_ok());
}
