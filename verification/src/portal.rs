//! The page of the web portal.

use vstd::prelude::*;

verus! {

/// The page from which a phone or another computer uploads files.
pub const PORTAL_HTML: &'static str = r##"<!DOCTYPE html>
<html lang="ru">
<head>
    <meta charset="UTF-8">
    <meta name="viewport" content="width=device-width, initial-scale=1.0">
    <title>DeskBridge Web Portal</title>
    <style>
        :root {
            --bg-color: #0d0e12;
            --card-bg: #15161c;
            --accent-color: #6366f1;
            --accent-glow: rgba(99, 102, 241, 0.15);
            --text-color: #f3f4f6;
            --text-muted: #9ca3af;
            --border-color: #27272a;
            --success-color: #10b981;
            --error-color: #ef4444;
        }
        * {
            box-sizing: border-box;
            margin: 0;
            padding: 0;
        }
        body {
            font-family: -apple-system, BlinkMacSystemFont, "Segoe UI", Roboto, Helvetica, Arial, sans-serif;
            background-color: var(--bg-color);
            color: var(--text-color);
            min-height: 100vh;
            display: flex;
            flex-direction: column;
            align-items: center;
            justify-content: center;
            padding: 20px;
            overflow-x: hidden;
            position: relative;
        }
        body::before {
            content: "";
            position: absolute;
            top: -10%;
            left: -10%;
            width: 300px;
            height: 300px;
            border-radius: 50%;
            background: rgba(99, 102, 241, 0.08);
            filter: blur(80px);
            pointer-events: none;
            z-index: 0;
        }
        body::after {
            content: "";
            position: absolute;
            bottom: -10%;
            right: -10%;
            width: 300px;
            height: 300px;
            border-radius: 50%;
            background: rgba(147, 51, 234, 0.08);
            filter: blur(80px);
            pointer-events: none;
            z-index: 0;
        }
        .container {
            width: 100%;
            max-width: 480px;
            background-color: var(--card-bg);
            border: 1px solid var(--border-color);
            border-radius: 24px;
            padding: 30px;
            box-shadow: 0 10px 30px -10px rgba(0, 0, 0, 0.5);
            z-index: 1;
            backdrop-filter: blur(10px);
        }
        header {
            text-align: center;
            margin-bottom: 25px;
        }
        .logo {
            display: inline-flex;
            align-items: center;
            justify-content: center;
            width: 48px;
            height: 48px;
            border-radius: 14px;
            background: linear-gradient(135deg, #6366f1 0%, #a855f7 100%);
            color: white;
            font-weight: bold;
            font-size: 20px;
            margin-bottom: 12px;
            box-shadow: 0 4px 14px var(--accent-glow);
        }
        h1 {
            font-size: 22px;
            font-weight: 800;
            background: linear-gradient(to right, #ffffff, #d1d5db);
            -webkit-background-clip: text;
            -webkit-text-fill-color: transparent;
            margin-bottom: 6px;
        }
        .subtitle {
            font-size: 13px;
            color: var(--text-muted);
        }
        .dropzone {
            border: 2px dashed #3f3f46;
            border-radius: 18px;
            padding: 40px 20px;
            text-align: center;
            cursor: pointer;
            transition: all 0.2s ease;
            background-color: rgba(255, 255, 255, 0.01);
            margin-bottom: 20px;
            position: relative;
            display: block;
        }
        .dropzone:hover, .dropzone.dragover {
            border-color: var(--accent-color);
            background-color: rgba(99, 102, 241, 0.04);
        }
        .dropzone svg {
            width: 40px;
            height: 40px;
            color: var(--accent-color);
            margin-bottom: 12px;
            transition: transform 0.2s ease;
        }
        .dropzone:hover svg {
            transform: translateY(-2px);
        }
        .dropzone p {
            font-size: 14px;
            font-weight: 600;
            color: #e5e7eb;
            margin-bottom: 4px;
        }
        .dropzone span {
            font-size: 11px;
            color: var(--text-muted);
        }
        #file-input {
            display: none;
        }
        .progress-container {
            display: none;
            background: rgba(0, 0, 0, 0.2);
            border: 1px solid var(--border-color);
            border-radius: 16px;
            padding: 16px;
            margin-bottom: 20px;
        }
        .progress-info {
            display: flex;
            justify-content: space-between;
            font-size: 12px;
            margin-bottom: 8px;
        }
        .file-name {
            font-weight: 600;
            max-width: 70%;
            overflow: hidden;
            text-overflow: ellipsis;
            white-space: nowrap;
        }
        .progress-bar-bg {
            width: 100%;
            height: 6px;
            background-color: #27272a;
            border-radius: 3px;
            overflow: hidden;
            margin-bottom: 8px;
        }
        .progress-bar-fill {
            width: 0%;
            height: 100%;
            background: linear-gradient(90deg, #6366f1, #a855f7);
            border-radius: 3px;
            transition: width 0.1s ease;
        }
        .progress-stats {
            display: flex;
            justify-content: space-between;
            font-size: 11px;
            color: var(--text-muted);
            font-family: monospace;
        }
        .alert {
            display: none;
            padding: 12px 16px;
            border-radius: 12px;
            font-size: 12px;
            font-weight: 500;
            margin-bottom: 20px;
            align-items: center;
            gap: 8px;
        }
        .alert-success {
            background-color: rgba(16, 185, 129, 0.1);
            border: 1px solid rgba(16, 185, 129, 0.2);
            color: #34d399;
        }
        .alert-error {
            background-color: rgba(239, 68, 68, 0.1);
            border: 1px solid rgba(239, 68, 68, 0.2);
            color: #f87171;
        }
        .developer-section {
            border-top: 1px solid var(--border-color);
            padding-top: 20px;
            margin-top: 10px;
            text-align: center;
        }
        .developer-title {
            font-size: 12px;
            text-transform: uppercase;
            letter-spacing: 0.05em;
            color: var(--text-muted);
            margin-bottom: 8px;
            font-weight: 700;
        }
        .developer-name {
            font-size: 15px;
            font-weight: 600;
            color: #f3f4f6;
            margin-bottom: 12px;
        }
        .links-container {
            display: flex;
            gap: 12px;
            justify-content: center;
        }
        .btn {
            display: inline-flex;
            align-items: center;
            gap: 6px;
            padding: 10px 18px;
            border-radius: 12px;
            font-size: 13px;
            font-weight: 600;
            text-decoration: none;
            transition: all 0.2s ease;
            border: 1px solid transparent;
            cursor: pointer;
        }
        .btn-tg {
            background-color: #24A1DE;
            color: white;
            box-shadow: 0 4px 10px rgba(36, 161, 222, 0.2);
        }
        .btn-tg:hover {
            background-color: #208ec4;
            transform: translateY(-1px);
        }
        .btn-site {
            background-color: rgba(255, 255, 255, 0.05);
            border-color: var(--border-color);
            color: #e5e7eb;
        }
        .btn-site:hover {
            background-color: rgba(255, 255, 255, 0.1);
            border-color: #3f3f46;
            color: white;
            transform: translateY(-1px);
        }
        footer {
            margin-top: 25px;
            font-size: 10px;
            color: #52525b;
            font-family: monospace;
            text-align: center;
        }
    </style>
</head>
<body>
    <div class="container">
        <header>
            <div class="logo">DB</div>
            <h1>DeskBridge Portal</h1>
            <p class="subtitle">Отправляйте файлы на компьютер по локальной сети</p>
        </header>

        <div class="alert alert-success" id="success-alert">
            <svg width="16" height="16" viewBox="0 0 24 24" fill="none" stroke="currentColor" stroke-width="2.5" stroke-linecap="round" stroke-linejoin="round"><path d="M22 11.08V12a10 10 0 1 1-5.93-9.14"></path><polyline points="22 4 12 14.01 9 11.01"></polyline></svg>
            <span style="margin-left: 8px;">Файл успешно загружен в папку "Загрузки"!</span>
        </div>

        <div class="alert alert-error" id="error-alert">
            <svg width="16" height="16" viewBox="0 0 24 24" fill="none" stroke="currentColor" stroke-width="2.5" stroke-linecap="round" stroke-linejoin="round"><circle cx="12" cy="12" r="10"></circle><line x1="15" y1="9" x2="9" y2="15"></line><line x1="9" y1="9" x2="15" y2="15"></line></svg>
            <span id="error-message" style="margin-left: 8px;">Ошибка при передаче файла.</span>
        </div>

        <label class="dropzone" id="dropzone">
            <svg viewBox="0 0 24 24" fill="none" stroke="currentColor" stroke-width="2" stroke-linecap="round" stroke-linejoin="round">
                <path d="M21 15v4a2 2 0 0 1-2 2H5a2 2 0 0 1-2-2v-4"></path>
                <polyline points="17 8 12 3 7 8"></polyline>
                <line x1="12" y1="3" x2="12" y2="15"></line>
            </svg>
            <p>Выбрать или перетащить файл</p>
            <span>Работает напрямую с iPhone и Android</span>
            <input type="file" id="file-input">
        </label>

        <div class="progress-container" id="progress-container">
            <div class="progress-info">
                <span class="file-name" id="progress-file-name">file.jpg</span>
                <span id="progress-percent">0%</span>
            </div>
            <div class="progress-bar-bg">
                <div class="progress-bar-fill" id="progress-bar-fill"></div>
            </div>
            <div class="progress-stats">
                <span id="progress-loaded">0 MB из 0 MB</span>
                <span id="progress-speed">0 MB/s</span>
            </div>
        </div>

        <div class="developer-section">
            <div class="developer-title">О разработчике</div>
            <div class="developer-name">Максимов Д.А.</div>
            <div class="links-container">
                <a href="https://t.me/dmitrymx" class="btn btn-tg" target="_blank">
                    <svg width="14" height="14" viewBox="0 0 24 24" fill="currentColor" style="vertical-align: middle;"><path d="M12 2C6.48 2 2 6.48 2 12s4.48 10 10 10 10-4.48 10-10S17.52 2 12 2zm4.64 6.8c-.15 1.58-.8 5.42-1.13 7.19-.14.75-.42 1-.68 1.03-.58.05-1.02-.38-1.58-.75-.88-.58-1.38-.94-2.23-1.5-.99-.65-.35-1.01.22-1.59.15-.15 2.71-2.48 2.76-2.69.01-.03.01-.14-.07-.2-.08-.06-.19-.04-.28-.02-.11.02-1.93 1.23-5.46 3.62-.51.35-.98.53-1.39.51-.46-.01-1.35-.26-2.01-.48-.81-.27-1.46-.42-1.4-.88.03-.24.37-.49 1.03-.75 4.04-1.76 6.74-2.92 8.09-3.48 3.85-1.6 4.64-1.88 5.17-1.89.11 0 .37.03.54.17.14.12.18.28.2.45-.02.07-.02.13-.03.2z"/></svg>
                    Telegram
                </a>
                <a href="https://mxmvdev.ru" class="btn btn-site" target="_blank">
                    <svg width="14" height="14" viewBox="0 0 24 24" fill="none" stroke="currentColor" stroke-width="2" stroke-linecap="round" stroke-linejoin="round" style="vertical-align: middle;"><circle cx="12" cy="12" r="10"></circle><line x1="2" y1="12" x2="22" y2="12"></line><path d="M12 2a15.3 15.3 0 0 1 4 10 15.3 15.3 0 0 1-4 10 15.3 15.3 0 0 1-4-10 15.3 15.3 0 0 1 4-10z"></path></svg>
                    Сайт mxmvdev.ru
                </a>
            </div>
        </div>
    </div>
    <footer>
        DeskBridge Portal • Локальное соединение без серверов
    </footer>

    <script>
        const dropzone = document.getElementById('dropzone');
        const fileInput = document.getElementById('file-input');
        const progressContainer = document.getElementById('progress-container');
        const progressBarFill = document.getElementById('progress-bar-fill');
        const progressFileName = document.getElementById('progress-file-name');
        const progressPercent = document.getElementById('progress-percent');
        const progressLoaded = document.getElementById('progress-loaded');
        const progressSpeed = document.getElementById('progress-speed');
        const successAlert = document.getElementById('success-alert');
        const errorAlert = document.getElementById('error-alert');
        const errorMessage = document.getElementById('error-message');

        ['dragenter', 'dragover', 'dragleave', 'drop'].forEach(eventName => {
            dropzone.addEventListener(eventName, preventDefaults, false);
            document.body.addEventListener(eventName, preventDefaults, false);
        });

        function preventDefaults(e) {
            e.preventDefault();
            e.stopPropagation();
        }

        ['dragenter', 'dragover'].forEach(eventName => {
            dropzone.addEventListener(eventName, () => dropzone.classList.add('dragover'), false);
        });

        ['dragleave', 'drop'].forEach(eventName => {
            dropzone.addEventListener(eventName, () => dropzone.classList.remove('dragover'), false);
        });

        dropzone.addEventListener('drop', (e) => {
            const dt = e.dataTransfer;
            const files = dt.files;
            if (files.length > 0) {
                handleFile(files[0]);
            }
        });

        fileInput.addEventListener('change', (e) => {
            if (fileInput.files.length > 0) {
                handleFile(fileInput.files[0]);
            }
        });

        function formatBytes(bytes, decimals = 2) {
            if (bytes === 0) return '0 B';
            const k = 1024;
            const dm = decimals < 0 ? 0 : decimals;
            const sizes = ['B', 'KB', 'MB', 'GB'];
            const i = Math.floor(Math.log(bytes) / Math.log(k));
            return parseFloat((bytes / Math.pow(k, i)).toFixed(dm)) + ' ' + sizes[i];
        }

        function handleFile(file) {
            successAlert.style.display = 'none';
            errorAlert.style.display = 'none';
            progressContainer.style.display = 'block';
            dropzone.style.display = 'none';

            progressFileName.textContent = file.name;
            
            const xhr = new XMLHttpRequest();
            const startTime = Date.now();

            xhr.upload.addEventListener('progress', (e) => {
                if (e.lengthComputable) {
                    const percent = Math.round((e.loaded / e.total) * 100);
                    progressBarFill.style.width = percent + '%';
                    progressPercent.textContent = percent + '%';
                    
                    const elapsed = (Date.now() - startTime) / 1000;
                    const speed = elapsed > 0 ? (e.loaded / (1024 * 1024)) / elapsed : 0;
                    
                    progressLoaded.textContent = formatBytes(e.loaded) + ' из ' + formatBytes(e.total);
                    progressSpeed.textContent = speed.toFixed(2) + ' MB/s';
                }
            });

            xhr.addEventListener('load', () => {
                progressContainer.style.display = 'none';
                dropzone.style.display = 'block';
                fileInput.value = '';

                if (xhr.status >= 200 && xhr.status < 300) {
                    successAlert.style.display = 'block';
                } else {
                    errorMessage.textContent = 'Ошибка сервера: код ' + xhr.status;
                    errorAlert.style.display = 'block';
                }
            });

            xhr.addEventListener('error', () => {
                progressContainer.style.display = 'none';
                dropzone.style.display = 'block';
                fileInput.value = '';
                errorMessage.textContent = 'Ошибка сети при передаче файла.';
                errorAlert.style.display = 'block';
            });

            const filenameEncoded = encodeURIComponent(file.name);
            xhr.open('POST', '/upload?name=' + filenameEncoded, true);
            xhr.send(file);
        }
    </script>
</body>
</html>"##;

/// The page of the web portal.
pub fn get_portal_html() -> (html: &'static str)
    ensures
        html@ == PORTAL_HTML@,
{
    PORTAL_HTML
}

} // verus!
