//! The frame of the download page.
use vstd::prelude::*;

use crate::text;

verus! {

/// The page with placeholders for what differs between sessions.
pub const TEMPLATE: &'static str = "<!doctype html>\n\
<html lang=\"en\">\n\
<head>\n\
<meta charset=\"utf-8\" />\n\
<meta name=\"viewport\" content=\"width=device-width, initial-scale=1\" />\n\
<meta name=\"referrer\" content=\"no-referrer\" />\n\
<title>__PAGE_TITLE__</title>\n\
<style>\n\
:root { color-scheme: light dark; --accent: #f97316; --ink: #111827; --paper: #f9fafb; --line: #d1d5db; }\n\
@media (prefers-color-scheme: dark) { :root { --ink: #f3f4f6; --paper: #111827; --line: #374151; } }\n\
* { box-sizing: border-box; }\n\
body { margin: 0; font: 16px/1.5 system-ui, sans-serif; color: var(--ink); background: var(--paper); }\n\
main { max-width: 44rem; margin: 0 auto; padding: 2rem 1rem; }\n\
h1 { overflow-wrap: anywhere; }\n\
.badge { display: inline-block; padding: 0 .6rem; border-radius: 1rem; background: var(--accent); color: #fff; }\n\
.meta { display: flex; gap: 1.5rem; flex-wrap: wrap; padding: 0; list-style: none; }\n\
.action-card, .quick-action, .notice { margin: 1rem 0; padding: 1rem; border: 1px solid var(--line); border-radius: .5rem; }\n\
.form__input { margin: 0 .5rem; padding: .5rem; font: inherit; }\n\
.form__button, .quick-action__button { padding: .6rem 1.2rem; border: 0; border-radius: .5rem; background: var(--accent); color: #fff; font: inherit; text-decoration: none; }\n\
.sheet__row { display: flex; gap: 1rem; padding: .4rem 0; border-bottom: 1px solid var(--line); }\n\
.sheet__label { flex: 0 0 12rem; opacity: .7; }\n\
.sheet__value { margin: 0; overflow-wrap: anywhere; }\n\
.sheet__value--accent { color: var(--accent); }\n\
.notice--accent, .notice--warning { border-color: var(--accent); }\n\
</style>\n\
</head>\n\
<body data-token=\"__TOKEN__\" data-expiry=\"__EXPIRY_SECONDS__\">\n\
<main>\n\
<header>\n\
<a href=\"__PROJECT_URL__\">Beam</a> <span class=\"badge\">__BADGE__</span>\n\
<h1>__DISPLAY_NAME__</h1>\n\
<p>__MODE_LABEL__</p>\n\
<p>__LEAD__</p>\n\
<ul class=\"meta\"><li>Expires in <span id=\"ttl\">__TTL__</span></li><li>__STATE__</li></ul>\n\
</header>\n\
__ACTION_PANEL__\n\
<dl class=\"sheet\">__SUMMARY_ROWS__</dl>\n\
__NOTICES__\n\
</main>\n\
<script>\n\
(function () {\n\
  var left = document.getElementById(\"ttl\");\n\
  var expiry = Number(document.body.dataset.expiry);\n\
  function tick() {\n\
    var seconds = Math.max(0, expiry - Math.floor(Date.now() / 1000));\n\
    if (seconds === 0) {\n\
      left.textContent = \"0s\";\n\
      return;\n\
    }\n\
    var parts = [];\n\
    [[\"d\", 86400], [\"h\", 3600], [\"m\", 60], [\"s\", 1]].forEach(function (unit) {\n\
      var count = Math.floor(seconds / unit[1]);\n\
      seconds = seconds % unit[1];\n\
      if (count > 0) { parts.push(count + unit[0]); }\n\
    });\n\
    left.textContent = parts.join(\" \");\n\
  }\n\
  tick();\n\
  setInterval(tick, 1000);\n\
})();\n\
</script>\n\
</body>\n\
</html>\n\
";

/// The frame of the page has a place for everything that the page shows, set off from what
/// stands around it.
pub proof fn frame_has_every_place()
    ensures
        text::contains(TEMPLATE@, seq!['>'] + "__PAGE_TITLE__"@ + seq!['<']),
        text::contains(TEMPLATE@, seq!['"'] + "__PROJECT_URL__"@ + seq!['"']),
        text::contains(TEMPLATE@, seq!['>'] + "__BADGE__"@ + seq!['<']),
        text::contains(TEMPLATE@, seq!['>'] + "__DISPLAY_NAME__"@ + seq!['<']),
        text::contains(TEMPLATE@, seq!['>'] + "__MODE_LABEL__"@ + seq!['<']),
        text::contains(TEMPLATE@, seq!['>'] + "__LEAD__"@ + seq!['<']),
        text::contains(TEMPLATE@, seq!['>'] + "__TTL__"@ + seq!['<']),
        text::contains(TEMPLATE@, seq!['>'] + "__STATE__"@ + seq!['<']),
        text::contains(TEMPLATE@, seq!['"'] + "__TOKEN__"@ + seq!['"']),
        text::contains(TEMPLATE@, seq!['"'] + "__EXPIRY_SECONDS__"@ + seq!['"']),
        text::contains(TEMPLATE@, seq!['\n'] + "__ACTION_PANEL__"@ + seq!['\n']),
        text::contains(TEMPLATE@, seq!['>'] + "__SUMMARY_ROWS__"@ + seq!['<']),
        text::contains(TEMPLATE@, seq!['\n'] + "__NOTICES__"@ + seq!['\n']),
{
    reveal_strlit(
        "<!doctype html>\n\
<html lang=\"en\">\n\
<head>\n\
<meta charset=\"utf-8\" />\n\
<meta name=\"viewport\" content=\"width=device-width, initial-scale=1\" />\n\
<meta name=\"referrer\" content=\"no-referrer\" />\n\
<title>__PAGE_TITLE__</title>\n\
<style>\n\
:root { color-scheme: light dark; --accent: #f97316; --ink: #111827; --paper: #f9fafb; --line: #d1d5db; }\n\
@media (prefers-color-scheme: dark) { :root { --ink: #f3f4f6; --paper: #111827; --line: #374151; } }\n\
* { box-sizing: border-box; }\n\
body { margin: 0; font: 16px/1.5 system-ui, sans-serif; color: var(--ink); background: var(--paper); }\n\
main { max-width: 44rem; margin: 0 auto; padding: 2rem 1rem; }\n\
h1 { overflow-wrap: anywhere; }\n\
.badge { display: inline-block; padding: 0 .6rem; border-radius: 1rem; background: var(--accent); color: #fff; }\n\
.meta { display: flex; gap: 1.5rem; flex-wrap: wrap; padding: 0; list-style: none; }\n\
.action-card, .quick-action, .notice { margin: 1rem 0; padding: 1rem; border: 1px solid var(--line); border-radius: .5rem; }\n\
.form__input { margin: 0 .5rem; padding: .5rem; font: inherit; }\n\
.form__button, .quick-action__button { padding: .6rem 1.2rem; border: 0; border-radius: .5rem; background: var(--accent); color: #fff; font: inherit; text-decoration: none; }\n\
.sheet__row { display: flex; gap: 1rem; padding: .4rem 0; border-bottom: 1px solid var(--line); }\n\
.sheet__label { flex: 0 0 12rem; opacity: .7; }\n\
.sheet__value { margin: 0; overflow-wrap: anywhere; }\n\
.sheet__value--accent { color: var(--accent); }\n\
.notice--accent, .notice--warning { border-color: var(--accent); }\n\
</style>\n\
</head>\n\
<body data-token=\"__TOKEN__\" data-expiry=\"__EXPIRY_SECONDS__\">\n\
<main>\n\
<header>\n\
<a href=\"__PROJECT_URL__\">Beam</a> <span class=\"badge\">__BADGE__</span>\n\
<h1>__DISPLAY_NAME__</h1>\n\
<p>__MODE_LABEL__</p>\n\
<p>__LEAD__</p>\n\
<ul class=\"meta\"><li>Expires in <span id=\"ttl\">__TTL__</span></li><li>__STATE__</li></ul>\n\
</header>\n\
__ACTION_PANEL__\n\
<dl class=\"sheet\">__SUMMARY_ROWS__</dl>\n\
__NOTICES__\n\
</main>\n\
<script>\n\
(function () {\n\
  var left = document.getElementById(\"ttl\");\n\
  var expiry = Number(document.body.dataset.expiry);\n\
  function tick() {\n\
    var seconds = Math.max(0, expiry - Math.floor(Date.now() / 1000));\n\
    if (seconds === 0) {\n\
      left.textContent = \"0s\";\n\
      return;\n\
    }\n\
    var parts = [];\n\
    [[\"d\", 86400], [\"h\", 3600], [\"m\", 60], [\"s\", 1]].forEach(function (unit) {\n\
      var count = Math.floor(seconds / unit[1]);\n\
      seconds = seconds % unit[1];\n\
      if (count > 0) { parts.push(count + unit[0]); }\n\
    });\n\
    left.textContent = parts.join(\" \");\n\
  }\n\
  tick();\n\
  setInterval(tick, 1000);\n\
})();\n\
</script>\n\
</body>\n\
</html>\n\
",
    );
    assert(text::contains(TEMPLATE@, seq!['>'] + "__PAGE_TITLE__"@ + seq!['<'])) by {
        reveal_strlit("__PAGE_TITLE__");
        let place = seq!['>'] + "__PAGE_TITLE__"@ + seq!['<'];
        assert(TEMPLATE@.subrange(189, 205) =~= place);
        assert(text::occurs_at(TEMPLATE@, place, 189));
    }
    assert(text::contains(TEMPLATE@, seq!['"'] + "__PROJECT_URL__"@ + seq!['"'])) by {
        reveal_strlit("__PROJECT_URL__");
        let place = seq!['"'] + "__PROJECT_URL__"@ + seq!['"'];
        assert(TEMPLATE@.subrange(1638, 1655) =~= place);
        assert(text::occurs_at(TEMPLATE@, place, 1638));
    }
    assert(text::contains(TEMPLATE@, seq!['>'] + "__BADGE__"@ + seq!['<'])) by {
        reveal_strlit("__BADGE__");
        let place = seq!['>'] + "__BADGE__"@ + seq!['<'];
        assert(TEMPLATE@.subrange(1684, 1695) =~= place);
        assert(text::occurs_at(TEMPLATE@, place, 1684));
    }
    assert(text::contains(TEMPLATE@, seq!['>'] + "__DISPLAY_NAME__"@ + seq!['<'])) by {
        reveal_strlit("__DISPLAY_NAME__");
        let place = seq!['>'] + "__DISPLAY_NAME__"@ + seq!['<'];
        assert(TEMPLATE@.subrange(1705, 1723) =~= place);
        assert(text::occurs_at(TEMPLATE@, place, 1705));
    }
    assert(text::contains(TEMPLATE@, seq!['>'] + "__MODE_LABEL__"@ + seq!['<'])) by {
        reveal_strlit("__MODE_LABEL__");
        let place = seq!['>'] + "__MODE_LABEL__"@ + seq!['<'];
        assert(TEMPLATE@.subrange(1730, 1746) =~= place);
        assert(text::occurs_at(TEMPLATE@, place, 1730));
    }
    assert(text::contains(TEMPLATE@, seq!['>'] + "__LEAD__"@ + seq!['<'])) by {
        reveal_strlit("__LEAD__");
        let place = seq!['>'] + "__LEAD__"@ + seq!['<'];
        assert(TEMPLATE@.subrange(1752, 1762) =~= place);
        assert(text::occurs_at(TEMPLATE@, place, 1752));
    }
    assert(text::contains(TEMPLATE@, seq!['>'] + "__TTL__"@ + seq!['<'])) by {
        reveal_strlit("__TTL__");
        let place = seq!['>'] + "__TTL__"@ + seq!['<'];
        assert(TEMPLATE@.subrange(1812, 1821) =~= place);
        assert(text::occurs_at(TEMPLATE@, place, 1812));
    }
    assert(text::contains(TEMPLATE@, seq!['>'] + "__STATE__"@ + seq!['<'])) by {
        reveal_strlit("__STATE__");
        let place = seq!['>'] + "__STATE__"@ + seq!['<'];
        assert(TEMPLATE@.subrange(1835, 1846) =~= place);
        assert(text::occurs_at(TEMPLATE@, place, 1835));
    }
    assert(text::contains(TEMPLATE@, seq!['"'] + "__TOKEN__"@ + seq!['"'])) by {
        reveal_strlit("__TOKEN__");
        let place = seq!['"'] + "__TOKEN__"@ + seq!['"'];
        assert(TEMPLATE@.subrange(1568, 1579) =~= place);
        assert(text::occurs_at(TEMPLATE@, place, 1568));
    }
    assert(text::contains(TEMPLATE@, seq!['"'] + "__EXPIRY_SECONDS__"@ + seq!['"'])) by {
        reveal_strlit("__EXPIRY_SECONDS__");
        let place = seq!['"'] + "__EXPIRY_SECONDS__"@ + seq!['"'];
        assert(TEMPLATE@.subrange(1592, 1612) =~= place);
        assert(text::occurs_at(TEMPLATE@, place, 1592));
    }
    assert(text::contains(TEMPLATE@, seq!['\n'] + "__ACTION_PANEL__"@ + seq!['\n'])) by {
        reveal_strlit("__ACTION_PANEL__");
        let place = seq!['\n'] + "__ACTION_PANEL__"@ + seq!['\n'];
        assert(TEMPLATE@.subrange(1865, 1883) =~= place);
        assert(text::occurs_at(TEMPLATE@, place, 1865));
    }
    assert(text::contains(TEMPLATE@, seq!['>'] + "__SUMMARY_ROWS__"@ + seq!['<'])) by {
        reveal_strlit("__SUMMARY_ROWS__");
        let place = seq!['>'] + "__SUMMARY_ROWS__"@ + seq!['<'];
        assert(TEMPLATE@.subrange(1900, 1918) =~= place);
        assert(text::occurs_at(TEMPLATE@, place, 1900));
    }
    assert(text::contains(TEMPLATE@, seq!['\n'] + "__NOTICES__"@ + seq!['\n'])) by {
        reveal_strlit("__NOTICES__");
        let place = seq!['\n'] + "__NOTICES__"@ + seq!['\n'];
        assert(TEMPLATE@.subrange(1922, 1935) =~= place);
        assert(text::occurs_at(TEMPLATE@, place, 1922));
    }
}

} // verus!
