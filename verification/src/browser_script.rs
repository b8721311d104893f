//! The script injected into the embedded Workshop browser. It adds an
//! "Add Mod" / "Remove" / "Installed" button to item pages and cards, and a
//! "Queue Collection" button to collections, and talks to the application
//! through `zmd-workshop://ACTION/?publishedfileid=ID&title=TITLE`
//! navigations (see `workshop::bridge_navigation_action`).

use vstd::prelude::*;

verus! {

pub const WORKSHOP_BROWSER_BUTTON_SCRIPT: &'static str = r###"
(() => {
  if (window.__zmdWorkshopButtonInstalled) return;
  window.__zmdWorkshopButtonInstalled = true;

  const APP_ID = "108600";
  const STYLE_ID = "zmd-workshop-button-style";
  const ROOT_ID = "zmd-workshop-button-root";

  let activeId = "";
  let activeTitle = "";
  let busy = false;
  let currentState = { queued: false, installed: false };

  function workshopId() {
    try {
      const url = new URL(window.location.href);
      if (!/steamcommunity\.com$/i.test(url.hostname) && !/\.steamcommunity\.com$/i.test(url.hostname)) return "";
      if (!url.pathname.includes("/sharedfiles/filedetails") && !url.pathname.includes("/workshop/filedetails")) return "";
      const appId = url.searchParams.get("appid") || url.searchParams.get("appids");
      if (appId && appId !== APP_ID) return "";
      return url.searchParams.get("id") || url.searchParams.get("publishedfileid") || "";
    } catch (_) {
      return "";
    }
  }

  function itemTitle(id) {
    const selectors = [
      ".workshopItemTitle",
      ".workshopItemTitleContainer .title",
      ".apphub_AppName",
      "h1"
    ];
    for (const selector of selectors) {
      const text = (document.querySelector(selector)?.textContent || "").trim();
      if (text) return text.replace(/\s+/g, " ");
    }
    return `Workshop Item ${id}`;
  }

  function subscribeTarget() {
    const selectors = [
      "#SubscribeItemBtn",
      "#SubscribeItemOptionAdd",
      "#SubscribeItemOptionSubscribed",
      "#SubscribeItemOptionControls",
      ".subscribeOptionAdd",
      ".subscribeOptionSubscribed",
      ".subscribeOption",
      ".game_area_purchase_game",
      ".workshopItemControls",
      ".rightDetailsBlock",
      ".rightcol",
      "[id*='Subscribe'][class*='btn']",
      "[class*='subscribe'][class*='Button']"
    ];
    for (const selector of selectors) {
      const found = document.querySelector(selector);
      if (found && !found.closest(`#${ROOT_ID}`)) return found;
    }
    return null;
  }

  function fallbackTarget() {
    const selectors = [
      ".workshopItemControls",
      ".rightDetailsBlock",
      ".rightcol",
      ".workshopItemDetailsHeader",
      ".workshopItemTitle",
      "#ig_bottom"
    ];
    for (const selector of selectors) {
      const found = document.querySelector(selector);
      if (found && !found.closest(`#${ROOT_ID}`)) return found;
    }
    return document.body;
  }

  function insertAfter(target, node) {
    if (target.parentElement) {
      target.parentElement.insertBefore(node, target.nextSibling);
    } else {
      document.body.appendChild(node);
    }
  }

  function ensureStyle() {
    if (document.getElementById(STYLE_ID)) return;
    const style = document.createElement("style");
    style.id = STYLE_ID;
    style.textContent = `
      #${ROOT_ID} {
        margin: 10px 0;
        display: flex;
        align-items: stretch;
      }
      #${ROOT_ID} .zmd-workshop-button {
        border: 0;
        border-radius: 2px;
        color: #fff;
        cursor: pointer;
        display: inline-flex;
        align-items: center;
        justify-content: center;
        min-height: 42px;
        min-width: 188px;
        padding: 0 22px;
        font: 600 15px/1 Arial, Helvetica, sans-serif;
        text-shadow: 0 1px 1px rgba(0, 0, 0, .65);
        box-shadow: inset 0 1px 0 rgba(255,255,255,.18), 0 1px 2px rgba(0,0,0,.35);
      }
      #${ROOT_ID} .zmd-workshop-button.add {
        background: linear-gradient(#8bc53f, #5c8f22);
      }
      #${ROOT_ID} .zmd-workshop-button.remove {
        background: linear-gradient(#d84b3e, #8e241e);
      }
      #${ROOT_ID} .zmd-workshop-button.installed {
        background: linear-gradient(#24572d, #183d20);
        cursor: not-allowed;
        opacity: .72;
      }
      #${ROOT_ID} .zmd-workshop-button:disabled {
        cursor: not-allowed;
      }
      .zmd-steam-subscribe-hidden {
        display: none !important;
      }
      .zmd-workshop-card-button {
        position: absolute;
        z-index: 20;
        top: 6px;
        right: 6px;
        border: 0;
        border-radius: 2px;
        color: #fff;
        cursor: pointer;
        min-height: 30px;
        padding: 0 10px;
        font: 600 13px/1 Arial, Helvetica, sans-serif;
        text-shadow: 0 1px 1px rgba(0, 0, 0, .65);
        box-shadow: inset 0 1px 0 rgba(255,255,255,.18), 0 1px 2px rgba(0,0,0,.45);
        background: linear-gradient(#38d277, #1f9a51);
      }
      .zmd-workshop-card-button.remove {
        background: linear-gradient(#d84b3e, #8e241e);
      }
    `;
    document.head.appendChild(style);
  }

  function ensureRoot(target) {
    let root = document.getElementById(ROOT_ID);
    if (!root) {
      root = document.createElement("div");
      root.id = ROOT_ID;
      insertAfter(target, root);
    } else if (target && !root.parentElement) {
      insertAfter(target, root);
    }
    if (target && target !== document.body && /Subscribe|subscribe/.test(target.id + " " + target.className) && !target.classList.contains("zmd-steam-subscribe-hidden")) {
      target.classList.add("zmd-steam-subscribe-hidden");
    }
    return root;
  }

  function render(state) {
    currentState = state;
    const target = subscribeTarget() || fallbackTarget();
    if (!target) return;
    ensureStyle();
    const root = ensureRoot(target);
    const disabled = state.installed || busy;
    const label = state.installed ? "Installed" : state.queued ? "Remove" : "Add Mod";
    const mode = state.installed ? "installed" : state.queued ? "remove" : "add";
    root.innerHTML = "";
    const button = document.createElement("button");
    button.type = "button";
    button.className = `zmd-workshop-button ${mode}`;
    button.textContent = label;
    button.disabled = disabled;
    button.addEventListener("click", async () => {
      if (busy || state.installed) return;
      busy = true;
      render(state);
      const next = { ...state, queued: !state.queued };
      render(next);
      sendBridgeNavigation(state.queued ? "unqueue" : "queue", activeId, activeTitle || itemTitle(activeId));
    });
    root.appendChild(button);
  }

  function collectionChildIds() {
    const collectionRoot = document.querySelector(".collectionChildren, .workshopCollectionItems, #CollectionItems, .collectionItem, .workshopItemCollection");
    if (!collectionRoot) return [];
    const ids = new Set();
    for (const link of Array.from(collectionRoot.querySelectorAll("a[href*='filedetails'][href*='id=']"))) {
      const id = idFromHref(link.href);
      if (id && id !== activeId && /^\d+$/.test(id)) ids.add(id);
    }
    return Array.from(ids);
  }

  function isCollectionPage() {
    return collectionChildIds().length > 0;
  }

  function renderCollectionButton() {
    const target = fallbackTarget();
    if (!target) return;
    ensureStyle();
    const root = ensureRoot(target);
    root.innerHTML = "";
    const button = document.createElement("button");
    button.type = "button";
    button.className = "zmd-workshop-button add";
    button.textContent = busy ? "Resolving Collection..." : "Queue Collection";
    button.disabled = busy;
    button.addEventListener("click", () => {
      if (busy) return;
      busy = true;
      renderCollectionButton();
      sendBridgeNavigation("collection", activeId, activeTitle || itemTitle(activeId), true);
      window.setTimeout(() => {
        busy = false;
        renderCollectionButton();
      }, 1000);
    });
    root.appendChild(button);
  }

  function sendBridgeNavigation(action, id, title, skipDetailRender) {
    const url = new URL(`zmd-workshop://${action}/`);
    url.searchParams.set("publishedfileid", id);
    if (title) url.searchParams.set("title", title);
    window.location.href = url.toString();
    window.setTimeout(() => {
      busy = false;
      if (!skipDetailRender && activeId) render(currentState);
    }, 750);
  }

  function sendCardBridge(button, action, id, title) {
    button.dataset.zmdQueued = action === "queue" ? "true" : "false";
    button.textContent = action === "queue" ? "Remove" : "Add Mod";
    button.classList.toggle("remove", action === "queue");
    sendBridgeNavigation(action, id, title, true);
  }

  function idFromHref(href) {
    try {
      const url = new URL(href, window.location.href);
      if (!url.pathname.includes("/sharedfiles/filedetails") && !url.pathname.includes("/workshop/filedetails")) return "";
      return url.searchParams.get("id") || url.searchParams.get("publishedfileid") || "";
    } catch (_) {
      return "";
    }
  }

  function decorateBrowseItems() {
    ensureStyle();
    const links = Array.from(document.querySelectorAll("a[href*='filedetails'][href*='id=']"));
    for (const link of links) {
      const id = idFromHref(link.href);
      if (!id || !/^\d+$/.test(id)) continue;
      const card = link.closest(".workshopItem, .workshopItemPreviewHolder, .workshopBrowseItem, .workshopItemCollection, .item") || link.parentElement;
      if (!card || card.querySelector(`.zmd-workshop-card-button[data-publishedfileid="${id}"]`)) continue;
      const style = window.getComputedStyle(card);
      if (style.position === "static") card.style.position = "relative";
      const title =
        (card.querySelector(".workshopItemTitle, .workshopItemTitleContainer, .title")?.textContent || link.textContent || `Workshop Item ${id}`)
          .trim()
          .replace(/\s+/g, " ");
      const button = document.createElement("button");
      button.type = "button";
      button.className = "zmd-workshop-card-button";
      button.dataset.publishedfileid = id;
      button.dataset.zmdQueued = "false";
      button.textContent = "Add Mod";
      button.addEventListener("click", (event) => {
        event.preventDefault();
        event.stopPropagation();
        const queued = button.dataset.zmdQueued === "true";
        sendCardBridge(button, queued ? "unqueue" : "queue", id, title);
      });
      card.appendChild(button);
    }
  }

  window.__zmdSetWorkshopButtonState = (id, state) => {
    const stringId = String(id);
    for (const button of document.querySelectorAll(`.zmd-workshop-card-button[data-publishedfileid="${stringId}"]`)) {
      button.dataset.zmdQueued = state.queued ? "true" : "false";
      button.textContent = state.installed ? "Installed" : state.queued ? "Remove" : "Add Mod";
      button.disabled = !!state.installed;
      button.classList.toggle("remove", !!state.queued && !state.installed);
    }
    if (stringId !== String(activeId)) return;
    busy = false;
    render(state);
  };

  window.__zmdSetWorkshopKnownStates = (queuedIds, installedIds) => {
    const queued = new Set((queuedIds || []).map(String));
    const installed = new Set((installedIds || []).map(String));
    for (const button of document.querySelectorAll(".zmd-workshop-card-button[data-publishedfileid]")) {
      const id = String(button.dataset.publishedfileid || "");
      const isInstalled = installed.has(id);
      const isQueued = queued.has(id);
      button.dataset.zmdQueued = isQueued ? "true" : "false";
      button.textContent = isInstalled ? "Installed" : isQueued ? "Remove" : "Add Mod";
      button.disabled = isInstalled;
      button.classList.toggle("remove", isQueued && !isInstalled);
    }
    if (activeId) {
      busy = false;
      render({
        queued: queued.has(String(activeId)),
        installed: installed.has(String(activeId)),
        title: currentState && currentState.title ? currentState.title : null
      });
    }
  };

  window.__zmdWorkshopButtonError = (message) => {
    console.error("Zomboid Mod Downloader Workshop button failed", message);
    busy = false;
    render(currentState);
  };

  async function refresh() {
    const id = workshopId();
    if (!id) {
      document.getElementById(ROOT_ID)?.remove();
      decorateBrowseItems();
      return;
    }
    activeId = id;
    activeTitle = itemTitle(id);
    const target = subscribeTarget() || fallbackTarget();
    if (!target) return;
    if (isCollectionPage()) {
      renderCollectionButton();
      decorateBrowseItems();
      return;
    }
    render(currentState);
  }

  let scheduled = false;
  function scheduleRefresh() {
    if (scheduled) return;
    scheduled = true;
    window.setTimeout(() => {
      scheduled = false;
      refresh();
    }, 100);
  }

  document.addEventListener("DOMContentLoaded", scheduleRefresh);
  window.addEventListener("load", scheduleRefresh);
  window.addEventListener("popstate", scheduleRefresh);
  window.setInterval(scheduleRefresh, 1500);
  const observeDocument = () => {
    const root = document.documentElement || document.body;
    if (!root) {
      window.setTimeout(observeDocument, 50);
      return;
    }
    new MutationObserver(scheduleRefresh).observe(root, {
      childList: true,
      subtree: true
    });
  };
  observeDocument();
  scheduleRefresh();
})();
"###;

/// The initialization script of the Workshop browser.
pub fn workshop_browser_button_script() -> (res: &'static str)
    ensures
        res@ == WORKSHOP_BROWSER_BUTTON_SCRIPT@,
{
    WORKSHOP_BROWSER_BUTTON_SCRIPT
}

} // verus!
