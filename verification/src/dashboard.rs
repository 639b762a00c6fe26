//! The status page.

use vstd::prelude::*;

verus! {

/// A page that reads `status.json` every few seconds and shows what the daemon is doing. It hands
/// the token that it was opened with on, and refers to no other host.
pub const INDEX_HTML: &'static str = "<!DOCTYPE html>
<html lang=\"en\">
<head>
<meta charset=\"utf-8\">
<meta name=\"viewport\" content=\"width=device-width, initial-scale=1\">
<title>hbwatch</title>
<style>
body { font-family: system-ui, sans-serif; margin: 1.5rem; background: #14171c; color: #e6e6e6; }
h1 { font-size: 1.2rem; }
.bar { background: #2a2f38; border-radius: 6px; overflow: hidden; height: 1rem; }
.fill { background: #4caf50; height: 100%; width: 0; }
.muted { color: #9aa4b2; }
li { margin: .3rem 0; }
</style>
</head>
<body>
<h1>hbwatch</h1>
<p id=\"film\" class=\"muted\">loading</p>
<div class=\"bar\"><div id=\"fill\" class=\"fill\"></div></div>
<p id=\"counts\" class=\"muted\"></p>
<ul id=\"folders\"></ul>
<script>
function show(id, text) { document.getElementById(id).textContent = text; }
function eta(secs) {
  if (!secs || secs <= 0) { return \"\"; }
  return \" ETA \" + Math.floor(secs / 60) + \"m\" + String(secs % 60).padStart(2, \"0\") + \"s\";
}
async function refresh() {
  try {
    const reply = await fetch(\"status.json\" + location.search);
    if (!reply.ok) { show(\"film\", \"not authorized\"); return; }
    const s = await reply.json();
    const c = s.current;
    const percent = c ? Math.round(c.fraction * 100) : 0;
    show(\"film\", c ? c.film + \" [\" + c.folder + \"] \" + percent + \"%\" + eta(c.eta_secs) : \"idle\");
    document.getElementById(\"fill\").style.width = percent + \"%\";
    show(\"counts\", \"queued \" + s.pending_total + \", done \" + s.processed + \", failed \" + s.failed);
    const list = document.getElementById(\"folders\");
    list.textContent = \"\";
    for (const f of s.folders) {
      const item = document.createElement(\"li\");
      const queued = f.pending + \" queued\";
      item.textContent = f.name + \": \" + (f.encoding ? \"encoding (\" + queued + \")\" : f.pending ? queued : \"idle\");
      list.appendChild(item);
    }
  } catch (e) {
    show(\"film\", \"daemon not reachable\");
  }
}
refresh();
setInterval(refresh, 3000);
</script>
</body>
</html>
";

/// The status page.
pub fn index() -> (page: &'static str)
    ensures
        page@ == INDEX_HTML@,
{
    INDEX_HTML
}

} // verus!
