//! The fixed assets injected into a rewritten template: a stylesheet
//! appended inside `<head>` and the client-side delivery script appended
//! inside `<body>`.

use vstd::prelude::*;
use vstd::string::StrSliceExecFns;
use vstd::string::StringSliceAdditionalSpecFns;

verus! {

/// The built-in stylesheet: hides delivered wrapper elements.
pub fn static_style_css() -> (r: &'static str)
    ensures
        r.spec_bytes() == "htms-chunk{display:none}".spec_bytes(),
        r@ == "htms-chunk{display:none}"@,
{
    "htms-chunk{display:none}"
}

/// The built-in delivery script: routes each arriving `<htms-chunk>` element
/// into the region whose `data-htms` attribute equals the chunk's target.
pub fn static_on_response_js() -> (r: &'static str)
    ensures
        r.spec_bytes()
            == "(function(){function deliver(c){var t=document.querySelector('[data-htms=\"'+c.getAttribute('target')+'\"]');if(t){t.innerHTML=c.innerHTML;}c.remove();}new MutationObserver(function(ms){for(var i=0;i<ms.length;i++){var ns=ms[i].addedNodes;for(var j=0;j<ns.length;j++){var n=ns[j];if(n.tagName==='HTMS-CHUNK'){deliver(n);}}}}).observe(document.body,{childList:true});})();".spec_bytes(),
        r@
            == "(function(){function deliver(c){var t=document.querySelector('[data-htms=\"'+c.getAttribute('target')+'\"]');if(t){t.innerHTML=c.innerHTML;}c.remove();}new MutationObserver(function(ms){for(var i=0;i<ms.length;i++){var ns=ms[i].addedNodes;for(var j=0;j<ns.length;j++){var n=ns[j];if(n.tagName==='HTMS-CHUNK'){deliver(n);}}}}).observe(document.body,{childList:true});})();"@,
{
    "(function(){function deliver(c){var t=document.querySelector('[data-htms=\"'+c.getAttribute('target')+'\"]');if(t){t.innerHTML=c.innerHTML;}c.remove();}new MutationObserver(function(ms){for(var i=0;i<ms.length;i++){var ns=ms[i].addedNodes;for(var j=0;j<ns.length;j++){var n=ns[j];if(n.tagName==='HTMS-CHUNK'){deliver(n);}}}}).observe(document.body,{childList:true});})();"
}

/// The bytes of the `<style>` block appended inside the head section.
pub open spec fn spec_style_block() -> Seq<u8> {
    "<style>".spec_bytes() + "htms-chunk{display:none}".spec_bytes() + "</style>".spec_bytes()
}

/// The bytes of the `<script>` block appended inside the body container.
pub open spec fn spec_script_block() -> Seq<u8> {
    "<script>".spec_bytes()
        + "(function(){function deliver(c){var t=document.querySelector('[data-htms=\"'+c.getAttribute('target')+'\"]');if(t){t.innerHTML=c.innerHTML;}c.remove();}new MutationObserver(function(ms){for(var i=0;i<ms.length;i++){var ns=ms[i].addedNodes;for(var j=0;j<ns.length;j++){var n=ns[j];if(n.tagName==='HTMS-CHUNK'){deliver(n);}}}}).observe(document.body,{childList:true});})();".spec_bytes()
        + "</script>".spec_bytes()
}

/// Builds the `<style>` block.
pub fn style_block_vec() -> (v: Vec<u8>)
    ensures
        v@ == spec_style_block(),
{
    let mut v = "<style>".as_bytes_vec();
    let css = static_style_css().as_bytes_vec();
    crate::bytes_util::push_all(&mut v, &css);
    let close = "</style>".as_bytes_vec();
    crate::bytes_util::push_all(&mut v, &close);
    proof {
        assert(v@ =~= spec_style_block());
    }
    v
}

/// Builds the `<script>` block.
pub fn script_block_vec() -> (v: Vec<u8>)
    ensures
        v@ == spec_script_block(),
{
    let mut v = "<script>".as_bytes_vec();
    let js = static_on_response_js().as_bytes_vec();
    crate::bytes_util::push_all(&mut v, &js);
    let close = "</script>".as_bytes_vec();
    crate::bytes_util::push_all(&mut v, &close);
    proof {
        assert(v@ =~= spec_script_block());
    }
    v
}

} // verus!
