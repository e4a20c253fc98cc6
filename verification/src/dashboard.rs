use vstd::prelude::*;

verus! {

/// The management page that the web server falls back to when no built front end is found.
pub const DASHBOARD_HTML: &'static str = r#"<!DOCTYPE html>
<html lang="zh-TW" class="dark">
<head>
  <meta charset="UTF-8">
  <meta name="viewport" content="width=device-width, initial-scale=1.0">
  <title>Cyber-NOte · 原生 Web 管理引擎</title>
  <script src="https://cdn.tailwindcss.com"></script>
  <style>
    body { background-color: #0d1117; color: #c9d1d9; font-family: ui-sans-serif, system-ui, -apple-system, BlinkMacSystemFont, "Segoe UI", Roboto, sans-serif; }
    .neon-border { border: 1px solid rgba(16, 185, 129, 0.2); box-shadow: 0 0 15px rgba(16, 185, 129, 0.05); }
    .neon-glow:hover { box-shadow: 0 0 20px rgba(16, 185, 129, 0.15); }
  </style>
</head>
<body class="min-h-screen flex flex-col p-4 md:p-8">
  <header class="max-w-6xl w-full mx-auto mb-8 flex flex-col md:flex-row md:items-center justify-between gap-4 border-b border-gray-800 pb-6">
    <div>
      <div class="flex items-center gap-3">
        <span class="text-3xl">🛡️</span>
        <div>
          <h1 class="text-2xl font-bold tracking-tight text-white flex items-center gap-2">
            Cyber-NOte
            <span class="text-xs px-2.5 py-0.5 rounded-full bg-emerald-950 text-emerald-400 border border-emerald-800 font-mono">v0.0.4 · Rust 原生獨立引擎</span>
          </h1>
          <p class="text-sm text-gray-400 mt-0.5">統一設定管理 · GPG 非對稱金鑰加密隔離 · 零外掛免裝套件</p>
        </div>
      </div>
    </div>
    <div class="flex items-center gap-3">
      <span class="inline-flex items-center gap-1.5 px-3 py-1.5 rounded-md text-xs font-medium bg-emerald-900/40 text-emerald-300 border border-emerald-700/50">
        <span class="w-2 h-2 rounded-full bg-emerald-400 animate-pulse"></span>
        Web 服務運行中 (ACTIVE)
      </span>
      <button onclick="fetchStatus()" class="px-3 py-1.5 rounded-md text-xs font-medium bg-gray-800 hover:bg-gray-700 text-gray-200 border border-gray-700 transition">
        🔄 重新整理狀態
      </button>
    </div>
  </header>

  <main class="max-w-6xl w-full mx-auto grid grid-cols-1 lg:grid-cols-3 gap-6 flex-1">
    <!-- 左側與中欄：狀態卡與統一設定 -->
    <div class="lg:col-span-2 space-y-6">
      <!-- 統一設定檔狀態提示卡 -->
      <div class="bg-gray-900/70 rounded-xl p-5 neon-border">
        <div class="flex items-center justify-between mb-4">
          <h2 class="text-base font-semibold text-white flex items-center gap-2">
            <span>📄</span> 全域統一設定檔 (Unified Configuration)
          </h2>
          <span class="text-xs font-mono text-emerald-400 bg-emerald-950/60 px-2 py-0.5 rounded border border-emerald-900">
            CLI & Web 共用
          </span>
        </div>
        <p class="text-xs text-gray-400 mb-4">
          命令列 (<code class="text-gray-200 bg-gray-800 px-1 py-0.5 rounded">a</code>) 與 Web 管理介面已完全收斂至相同的單一設定檔，變更將全域即時生效。
        </p>
        <div class="bg-black/60 rounded-lg p-3 font-mono text-xs text-emerald-300 border border-gray-800 break-all select-all" id="cfgPath">
          ~/.local/share/cyber-note/config.json
        </div>
      </div>

      <!-- 四宮格狀態卡 -->
      <div class="grid grid-cols-1 sm:grid-cols-2 gap-4">
        <div class="bg-gray-900/60 rounded-xl p-4 border border-gray-800">
          <div class="text-xs text-gray-400 mb-1 flex items-center gap-1.5">
            <span>📂</span> 筆記資料目錄 (Note Dir)
          </div>
          <div class="font-mono text-xs text-gray-200 font-semibold truncate" id="noteDirDisplay">載入中...</div>
        </div>
        <div class="bg-gray-900/60 rounded-xl p-4 border border-gray-800">
          <div class="text-xs text-gray-400 mb-1 flex items-center gap-1.5">
            <span>🔑</span> GPG 金鑰 ID (Key ID)
          </div>
          <div class="font-mono text-xs text-cyan-300 font-semibold truncate" id="keyIdDisplay">載入中...</div>
        </div>
        <div class="bg-gray-900/60 rounded-xl p-4 border border-gray-800">
          <div class="text-xs text-gray-400 mb-1 flex items-center gap-1.5">
            <span>🌐</span> GitHub Gist ID
          </div>
          <div class="font-mono text-xs text-indigo-300 font-semibold truncate" id="gistIdDisplay">載入中...</div>
        </div>
        <div class="bg-gray-900/60 rounded-xl p-4 border border-gray-800">
          <div class="text-xs text-gray-400 mb-1 flex items-center gap-1.5">
            <span>🔒</span> Token 憑證隔離 (POSIX 0600)
          </div>
          <div class="font-mono text-xs font-semibold" id="tokenDisplay">載入中...</div>
        </div>
      </div>

      <!-- 統一設定配置表單 -->
      <div class="bg-gray-900/80 rounded-xl p-6 neon-border">
        <h2 class="text-base font-semibold text-white mb-4 flex items-center gap-2">
          <span>⚙️</span> 即時設定編輯與保存
        </h2>
        <form id="configForm" onsubmit="handleSave(event)" class="space-y-4">
          <div>
            <label class="block text-xs font-medium text-gray-300 mb-1">筆記工作目錄 (Note Directory)</label>
            <input type="text" id="inputNoteDir" placeholder="例: ~/.local/share/cyber-note/notes 或 ~/BOok/NOte"
              class="w-full bg-black/60 border border-gray-700 rounded-lg px-3 py-2 text-sm text-gray-100 focus:outline-none focus:border-emerald-500 font-mono">
          </div>
          <div class="grid grid-cols-1 sm:grid-cols-2 gap-4">
            <div>
              <label class="block text-xs font-medium text-gray-300 mb-1">GPG 公鑰使用者 ID / 指紋</label>
              <input type="text" id="inputKeyId" placeholder="例: CyberNOte 或 16 位金鑰指紋"
                class="w-full bg-black/60 border border-gray-700 rounded-lg px-3 py-2 text-sm text-gray-100 focus:outline-none focus:border-emerald-500 font-mono">
            </div>
            <div>
              <label class="block text-xs font-medium text-gray-300 mb-1">GitHub Gist ID</label>
              <input type="text" id="inputGistId" placeholder="例: e81d7f6b0f9c4263a..."
                class="w-full bg-black/60 border border-gray-700 rounded-lg px-3 py-2 text-sm text-gray-100 focus:outline-none focus:border-emerald-500 font-mono">
            </div>
          </div>
          <div>
            <label class="block text-xs font-medium text-gray-300 mb-1">GitHub Personal Access Token (將經 GPG 加密隔離)</label>
            <input type="password" id="inputToken" placeholder="若保留現有 token.gpg 密文憑證請留空"
              class="w-full bg-black/60 border border-gray-700 rounded-lg px-3 py-2 text-sm text-gray-100 focus:outline-none focus:border-emerald-500 font-mono">
          </div>
          <div class="pt-2 flex items-center justify-between">
            <span id="saveStatus" class="text-xs"></span>
            <button type="submit" class="px-5 py-2 rounded-lg text-sm font-medium bg-emerald-600 hover:bg-emerald-500 text-white shadow-lg transition">
              💾 保存並同步統一設定檔
            </button>
          </div>
        </form>
      </div>
    </div>

    <!-- 右側欄：CLI 快速指引與原生 Web 說明 -->
    <div class="space-y-6">
      <div class="bg-gray-900/60 rounded-xl p-5 border border-gray-800">
        <h3 class="text-sm font-semibold text-white mb-3 flex items-center gap-2">
          <span>⚡</span> 終端常用指令速查
        </h3>
        <div class="space-y-2.5 font-mono text-xs">
          <div class="bg-black/50 p-2.5 rounded border border-gray-800">
            <span class="text-emerald-400">a -w</span>
            <div class="text-gray-400 text-[11px] mt-0.5 font-sans">啟動 Web 伺服器 (Ctrl+C 停止)</div>
          </div>
          <div class="bg-black/50 p-2.5 rounded border border-gray-800">
            <span class="text-emerald-400">a -d --all</span>
            <div class="text-gray-400 text-[11px] mt-0.5 font-sans">批量下載雲端 Gist 全部檔案</div>
          </div>
          <div class="bg-black/50 p-2.5 rounded border border-gray-800">
            <span class="text-emerald-400">a -d 1.txt -o ./1.txt</span>
            <div class="text-gray-400 text-[11px] mt-0.5 font-sans">下載並精確儲存至當前工作目錄</div>
          </div>
          <div class="bg-black/50 p-2.5 rounded border border-gray-800">
            <span class="text-emerald-400">a -k</span>
            <div class="text-gray-400 text-[11px] mt-0.5 font-sans">查看金鑰審計與歸檔簿</div>
          </div>
        </div>
      </div>

      <div class="bg-gray-900/40 rounded-xl p-5 border border-gray-800 text-xs space-y-3">
        <h3 class="font-semibold text-gray-200 flex items-center gap-1.5">
          <span>🛡️</span> 架構安全特色
        </h3>
        <ul class="space-y-2 text-gray-400 list-disc list-inside">
          <li><strong>零套件外掛依賴：</strong>完全由 Rust 原生編譯運行，無需 Node.js、npm 或任何外部環境。</li>
          <li><strong>目錄嚴格收斂：</strong>統一存檔於 <code class="text-gray-300">~/.local/share/cyber-note/</code>。</li>
          <li><strong>金鑰隱私隔離：</strong>Token 憑證一律透過 GPG 封裝並設為 0600 許可權。</li>
        </ul>
      </div>
    </div>
  </main>

  <script>
    async function fetchStatus() {
      try {
        const res = await fetch('/api/rust/status');
        const data = await res.json();
        document.getElementById('noteDirDisplay').textContent = data.noteDir || '未配置';
        document.getElementById('keyIdDisplay').textContent = data.keyId || '未配置';
        document.getElementById('gistIdDisplay').textContent = data.gistId || '未配置';
        
        const tokenEl = document.getElementById('tokenDisplay');
        if (data.hasToken) {
          tokenEl.textContent = '🟢 已封裝隔離 (token.gpg)';
          tokenEl.className = 'font-mono text-xs font-semibold text-emerald-400';
        } else {
          tokenEl.textContent = '⚪ 尚未配置';
          tokenEl.className = 'font-mono text-xs font-semibold text-yellow-400';
        }

        if (data.unifiedConfigFile) {
          document.getElementById('cfgPath').textContent = data.unifiedConfigFile;
        }
        if (!document.getElementById('inputNoteDir').value) {
          document.getElementById('inputNoteDir').value = data.noteDir || '';
        }
        if (!document.getElementById('inputKeyId').value) {
          document.getElementById('inputKeyId').value = data.keyId === '未配置' ? '' : data.keyId;
        }
        if (!document.getElementById('inputGistId').value) {
          document.getElementById('inputGistId').value = data.gistId === '未配置' ? '' : data.gistId;
        }
      } catch (err) {
        console.error('無法取得狀態:', err);
      }
    }

    async function handleSave(e) {
      e.preventDefault();
      const statusEl = document.getElementById('saveStatus');
      statusEl.textContent = '⏳ 正在寫入統一設定檔...';
      statusEl.className = 'text-xs text-yellow-400';

      const payload = {
        noteDir: document.getElementById('inputNoteDir').value.trim(),
        keyId: document.getElementById('inputKeyId').value.trim(),
        gistId: document.getElementById('inputGistId').value.trim(),
      };
      const token = document.getElementById('inputToken').value.trim();
      if (token) payload.token = token;

      try {
        const res = await fetch('/api/rust/config', {
          method: 'POST',
          headers: { 'Content-Type': 'application/json' },
          body: JSON.stringify(payload)
        });
        const result = await res.json();
        if (result.success) {
          statusEl.textContent = '✨ ' + result.message;
          statusEl.className = 'text-xs text-emerald-400';
          fetchStatus();
        } else {
          statusEl.textContent = '❌ 保存失敗: ' + (result.message || '未知錯誤');
          statusEl.className = 'text-xs text-red-400';
        }
      } catch (err) {
        statusEl.textContent = '❌ 網路通信錯誤: ' + err.message;
        statusEl.className = 'text-xs text-red-400';
      }
    }

    fetchStatus();
  </script>
</body>
</html>
"#;

/// The built-in management page.
pub fn get_embedded_dashboard_html() -> (r: &'static str)
    ensures
        r@ == DASHBOARD_HTML@,
{
    DASHBOARD_HTML
}

} // verus!
